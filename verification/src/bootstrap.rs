//! What a launch is made of: the replacement of `${name}` tokens in
//! arguments, and the command line of the game.

use vstd::prelude::*;
use crate::model::{clone_strings, lemma_view_seq_push, view_opt, view_seq};
use crate::options::Override;
use crate::rule::OperatingSystem;
use crate::text::{from_chars, push_str, replace_all, replaced, same_chars, to_chars};

verus! {

/// An error of the launcher, as a message.
#[derive(Debug)]
pub struct MinecraftLauncherError(pub String);

impl MinecraftLauncherError {
    /// The message.
    pub fn to_string(&self) -> (message: String)
        ensures
            message@ == self.0@,
    {
        self.0.clone()
    }
}

/// An error of the authentication, as a message.
#[derive(Debug)]
pub struct MinecraftAuthenticationError(pub String);

impl MinecraftAuthenticationError {
    /// The message.
    pub fn to_string(&self) -> (message: String)
        ensures
            message@ == self.0@,
    {
        self.0.clone()
    }
}

/// A profile that an access token names.
#[derive(Debug)]
pub struct Pfd {
    pub profile_type: String,
    pub id: String,
    pub name: String,
}

/// The token that stands for `key` in an argument: `${key}`.
pub open spec fn token(key: Seq<char>) -> Seq<char> {
    seq!['$', '{'] + key + seq!['}']
}

/// The entries with `value` for `key`: in the place of the first entry for
/// `key` where there is one, and at the end where there is none.
pub open spec fn with_entry(
    entries: Seq<(Seq<char>, Seq<char>)>,
    key: Seq<char>,
    value: Seq<char>,
) -> Seq<(Seq<char>, Seq<char>)>
    decreases entries.len(),
{
    if entries.len() == 0 {
        seq![(key, value)]
    } else if entries[0].0 == key {
        seq![(key, value)] + entries.skip(1)
    } else {
        seq![entries[0]] + with_entry(entries.skip(1), key, value)
    }
}

/// The entries with those of `more` added one after the other.
pub open spec fn with_entries(
    entries: Seq<(Seq<char>, Seq<char>)>,
    more: Seq<(Seq<char>, Seq<char>)>,
) -> Seq<(Seq<char>, Seq<char>)>
    decreases more.len(),
{
    if more.len() == 0 {
        entries
    } else {
        with_entry(with_entries(entries, more.drop_last()), more.last().0, more.last().1)
    }
}

/// The text after the tokens of the entries have been replaced by their
/// values, one entry after the other.
pub open spec fn substituted(input: Seq<char>, entries: Seq<(Seq<char>, Seq<char>)>) -> Seq<char>
    decreases entries.len(),
{
    if entries.len() == 0 {
        input
    } else {
        replaced(
            substituted(input, entries.drop_last()),
            token(entries.last().0),
            entries.last().1,
        )
    }
}

/// Collects the values that take the place of tokens.
#[derive(Debug)]
pub struct ArgumentSubstitutorBuilder {
    map: Vec<Override>,
}

impl View for ArgumentSubstitutorBuilder {
    type V = Seq<(Seq<char>, Seq<char>)>;

    closed spec fn view(&self) -> Seq<(Seq<char>, Seq<char>)> {
        view_seq(self.map@)
    }
}

/// Replaces tokens in arguments.
#[derive(Debug)]
pub struct ArgumentSubstitutor {
    map: Vec<Override>,
}

impl View for ArgumentSubstitutor {
    type V = Seq<(Seq<char>, Seq<char>)>;

    closed spec fn view(&self) -> Seq<(Seq<char>, Seq<char>)> {
        view_seq(self.map@)
    }
}

impl ArgumentSubstitutorBuilder {
    /// A builder without entries.
    pub fn new() -> (builder: Self)
        ensures
            builder@ == Seq::<(Seq<char>, Seq<char>)>::empty(),
    {
        let builder = ArgumentSubstitutorBuilder { map: Vec::new() };
        assert(builder@ =~= Seq::<(Seq<char>, Seq<char>)>::empty());
        builder
    }

    /// Sets the value that takes the place of `${key}`.
    pub fn add(&mut self, key: &str, value: &str)
        ensures
            final(self)@ == with_entry(old(self)@, key@, value@),
    {
        let wanted = to_chars(key);
        let ghost entries = self@;
        let mut i: usize = 0;
        assert(entries.skip(0) =~= entries);
        assert(entries.take(0) + with_entry(entries.skip(0), key@, value@) =~= with_entry(
            entries,
            key@,
            value@,
        ));
        while i < self.map.len()
            invariant
                i <= self.map.len(),
                wanted@ == key@,
                entries == self@,
                self@ == old(self)@,
                with_entry(entries, key@, value@) == entries.take(i as int) + with_entry(
                    entries.skip(i as int),
                    key@,
                    value@,
                ),
            decreases self.map.len() - i,
        {
            let ghost rest = entries.skip(i as int);
            assert(rest[0] == self.map@[i as int]@);
            assert(rest.skip(1) =~= entries.skip(i + 1));
            let name = to_chars(self.map[i].key.as_str());
            if same_chars(&name, &wanted) {
                self.map[i].value = value.to_owned();
                assert(self@ =~= entries.take(i as int) + (seq![(key@, value@)] + rest.skip(1)));
                return ;
            }
            assert(entries.take(i + 1) + with_entry(entries.skip(i + 1), key@, value@)
                =~= entries.take(i as int) + (seq![rest[0]] + with_entry(
                rest.skip(1),
                key@,
                value@,
            )));
            i += 1;
        }
        let entry = Override { key: key.to_owned(), value: value.to_owned() };
        proof {
            lemma_view_seq_push(self.map@, entry);
            assert(entries.skip(entries.len() as int) =~= Seq::<(Seq<char>, Seq<char>)>::empty());
            assert(entries.take(entries.len() as int) =~= entries);
            assert(entries + seq![(key@, value@)] =~= entries.push((key@, value@)));
        }
        self.map.push(entry);
    }

    /// Sets the values of all entries of `map`, one after the other.
    pub fn add_all(&mut self, map: &Vec<Override>)
        ensures
            final(self)@ == with_entries(old(self)@, view_seq(map@)),
    {
        let ghost more = view_seq(map@);
        let mut i: usize = 0;
        while i < map.len()
            invariant
                i <= map.len(),
                more == view_seq(map@),
                self@ == with_entries(old(self)@, more.take(i as int)),
            decreases map.len() - i,
        {
            assert(more.take(i + 1).drop_last() =~= more.take(i as int));
            assert(more.take(i + 1).last() == map@[i as int]@);
            self.add(map[i].key.as_str(), map[i].value.as_str());
            i += 1;
        }
        assert(more.take(more.len() as int) =~= more);
    }

    /// What replaces the tokens of the entries collected.
    pub fn build(self) -> (substitutor: ArgumentSubstitutor)
        ensures
            substitutor@ == self@,
    {
        ArgumentSubstitutor { map: self.map }
    }
}

impl ArgumentSubstitutor {
    /// The argument with each token replaced by its value, entry after
    /// entry in the order in which the keys were first added.
    pub fn substitute(&self, input: &str) -> (output: String)
        ensures
            output@ == substituted(input@, self@),
    {
        let ghost entries = self@;
        let mut text = to_chars(input);
        let mut i: usize = 0;
        while i < self.map.len()
            invariant
                i <= self.map.len(),
                entries == self@,
                text@ == substituted(input@, entries.take(i as int)),
            decreases self.map.len() - i,
        {
            assert(entries.take(i + 1).drop_last() =~= entries.take(i as int));
            assert(entries.take(i + 1).last() == self.map@[i as int]@);
            let mut needle: Vec<char> = Vec::new();
            needle.push('$');
            needle.push('{');
            push_str(&mut needle, self.map[i].key.as_str());
            needle.push('}');
            assert(needle@ =~= token(self.map@[i as int]@.0));
            let value = to_chars(self.map[i].value.as_str());
            text = replace_all(&text, &needle, &value);
            i += 1;
        }
        assert(entries.take(entries.len() as int) =~= entries);
        from_chars(text.as_slice())
    }
}

/// Collects the command line of the game.
#[derive(Debug)]
pub struct GameProcessBuilder {
    arguments: Vec<String>,
    java_path: Option<String>,
    directory: Option<String>,
}

/// The mathematical value of a [`GameProcessBuilder`].
pub struct GameProcessView {
    pub arguments: Seq<Seq<char>>,
    pub java_path: Option<Seq<char>>,
    pub directory: Option<Seq<char>>,
}

impl View for GameProcessBuilder {
    type V = GameProcessView;

    closed spec fn view(&self) -> GameProcessView {
        GameProcessView {
            arguments: view_seq(self.arguments@),
            java_path: view_opt(self.java_path),
            directory: view_opt(self.directory),
        }
    }
}

/// An argument as it is handed to a process on `os`: on Windows a
/// backslash is put before each quotation mark.
pub open spec fn escaped(argument: Seq<char>, os: OperatingSystem) -> Seq<char> {
    if os == OperatingSystem::Windows {
        replaced(argument, seq!['"'], seq!['\\', '"'])
    } else {
        argument
    }
}

impl GameProcessBuilder {
    /// A builder without arguments, path or directory.
    pub fn new() -> (builder: Self)
        ensures
            builder@ == (GameProcessView {
                arguments: Seq::<Seq<char>>::empty(),
                java_path: None,
                directory: None,
            }),
    {
        let builder = GameProcessBuilder { arguments: Vec::new(), java_path: None, directory: None };
        assert(builder@.arguments =~= Seq::<Seq<char>>::empty());
        builder
    }

    /// Sets the path of Java.
    pub fn with_java_path(&mut self, java_path: &str)
        ensures
            final(self)@ == (GameProcessView { java_path: Some(java_path@), ..old(self)@ }),
    {
        self.java_path = Some(java_path.to_owned());
    }

    /// The arguments collected so far.
    pub fn get_args(&self) -> (arguments: Vec<String>)
        ensures
            view_seq(arguments@) == self@.arguments,
    {
        clone_strings(&self.arguments)
    }

    /// Adds an argument.
    pub fn with_argument(&mut self, argument: &str)
        ensures
            final(self)@ == (GameProcessView {
                arguments: old(self)@.arguments.push(argument@),
                ..old(self)@
            }),
    {
        let owned = argument.to_owned();
        proof {
            lemma_view_seq_push(self.arguments@, owned);
        }
        self.arguments.push(owned);
    }

    /// Adds arguments, in order.
    pub fn with_arguments(&mut self, arguments: &Vec<String>)
        ensures
            final(self)@ == (GameProcessView {
                arguments: old(self)@.arguments + view_seq(arguments@),
                ..old(self)@
            }),
    {
        let ghost more = view_seq(arguments@);
        let mut i: usize = 0;
        assert(old(self)@.arguments + more.take(0) =~= old(self)@.arguments);
        while i < arguments.len()
            invariant
                i <= arguments.len(),
                more == view_seq(arguments@),
                self@ == (GameProcessView {
                    arguments: old(self)@.arguments + more.take(i as int),
                    ..old(self)@
                }),
            decreases arguments.len() - i,
        {
            let ghost before = self@.arguments;
            self.with_argument(arguments[i].as_str());
            assert(before.push(arguments@[i as int]@) =~= old(self)@.arguments + more.take(i + 1));
            i += 1;
        }
        assert(more.take(more.len() as int) =~= more);
    }

    /// Sets the directory in which the game runs.
    pub fn directory(&mut self, directory: &str)
        ensures
            final(self)@ == (GameProcessView { directory: Some(directory@), ..old(self)@ }),
    {
        self.directory = Some(directory.to_owned());
    }

    /// The path of Java, if it is set.
    pub fn java_path(&self) -> (path: Option<&String>)
        ensures
            view_opt(path) == self@.java_path,
    {
        self.java_path.as_ref()
    }

    /// The directory in which the game runs, if it is set.
    pub fn working_directory(&self) -> (directory: Option<&String>)
        ensures
            view_opt(directory) == self@.directory,
    {
        self.directory.as_ref()
    }

    /// The arguments as they are handed to the process on `os`.
    pub fn spawn_arguments(&self, os: OperatingSystem) -> (arguments: Vec<String>)
        ensures
            arguments@.len() == self@.arguments.len(),
            forall|i: int|
                0 <= i < arguments@.len() ==> (#[trigger] arguments@[i])@ == escaped(
                    self@.arguments[i],
                    os,
                ),
    {
        let mut arguments: Vec<String> = Vec::new();
        let mut quote: Vec<char> = Vec::new();
        quote.push('"');
        let mut escape: Vec<char> = Vec::new();
        escape.push('\\');
        escape.push('"');
        let mut i: usize = 0;
        while i < self.arguments.len()
            invariant
                i <= self.arguments.len(),
                quote@ == seq!['"'],
                escape@ == seq!['\\', '"'],
                arguments@.len() == i,
                forall|k: int|
                    0 <= k < arguments@.len() ==> (#[trigger] arguments@[k])@ == escaped(
                        self@.arguments[k],
                        os,
                    ),
            decreases self.arguments.len() - i,
        {
            assert(self@.arguments[i as int] == self.arguments@[i as int]@);
            let argument = if os == OperatingSystem::Windows {
                let text = to_chars(self.arguments[i].as_str());
                let out = replace_all(&text, &quote, &escape);
                from_chars(out.as_slice())
            } else {
                self.arguments[i].clone()
            };
            arguments.push(argument);
            i += 1;
        }
        arguments
    }
}

} // verus!
