//! The command line.

use vstd::prelude::*;
use vstd::string::*;

use crate::api::{DEFAULT_INSTANCE, DEFAULT_TOKEN_ENV};
use crate::{api, text};

verus! {

/// What the provider is started with.
pub struct Options {
    pub instance: String,
    pub token_env: String,
    /// The directory of the cache, where it is not the default one.
    pub cache: Option<String>,
}

/// What the command line asks for.
pub enum Command {
    /// To say the version.
    Version,
    /// To serve requests.
    Serve(Options),
    /// Nothing: it holds a flag that is not known.
    Unknown(String),
}

/// Options, with their texts as sequences.
pub struct OptionsView {
    pub instance: Seq<char>,
    pub token_env: Seq<char>,
    pub cache: Option<Seq<char>>,
}

pub enum CommandView {
    Version,
    Serve(OptionsView),
    Unknown(Seq<char>),
}

impl Options {
    pub open spec fn view(&self) -> OptionsView {
        OptionsView {
            instance: self.instance@,
            token_env: self.token_env@,
            cache: api::maybe_text(self.cache),
        }
    }
}

impl Command {
    pub open spec fn view(&self) -> CommandView {
        match *self {
            Command::Version => CommandView::Version,
            Command::Serve(options) => CommandView::Serve(options.view()),
            Command::Unknown(flag) => CommandView::Unknown(flag@),
        }
    }
}

/// The argument of the flag that comes first.
pub open spec fn argument(args: Seq<Seq<char>>) -> Option<Seq<char>> {
    if args.len() > 1 {
        Some(args[1])
    } else {
        None
    }
}

/// What is left after the flag that comes first and its argument.
pub open spec fn after(args: Seq<Seq<char>>) -> Seq<Seq<char>> {
    if args.len() > 1 {
        args.skip(2)
    } else {
        seq![]
    }
}

pub open spec fn text_or_empty(s: Option<Seq<char>>) -> Seq<char> {
    match s {
        Some(s) => s,
        None => ""@,
    }
}

/// What flags make of options. A flag without an argument takes the empty one; a later flag
/// replaces an earlier one of its name.
pub open spec fn read_flags(args: Seq<Seq<char>>, options: OptionsView) -> CommandView
    decreases args.len(),
{
    if args.len() == 0 {
        CommandView::Serve(options)
    } else if args[0] == "--instance"@ {
        read_flags(
            after(args),
            OptionsView { instance: text_or_empty(argument(args)), ..options },
        )
    } else if args[0] == "--token-env"@ {
        read_flags(
            after(args),
            OptionsView { token_env: text_or_empty(argument(args)), ..options },
        )
    } else if args[0] == "--cache"@ {
        read_flags(after(args), OptionsView { cache: argument(args), ..options })
    } else {
        CommandView::Unknown(args[0])
    }
}

pub open spec fn default_options() -> OptionsView {
    OptionsView { instance: DEFAULT_INSTANCE@, token_env: DEFAULT_TOKEN_ENV@, cache: None }
}

pub open spec fn asks_version(arg: Seq<char>) -> bool {
    arg == "--version"@ || arg == "-V"@
}

/// The command of a command line, the name of the program at its front. A question for the
/// version counts wherever it stands.
pub open spec fn command_of(args: Seq<Seq<char>>) -> CommandView {
    if exists|i: int| 0 <= i < args.len() && asks_version(#[trigger] args[i]) {
        CommandView::Version
    } else {
        read_flags(
            if args.len() > 0 {
                args.skip(1)
            } else {
                seq![]
            },
            default_options(),
        )
    }
}

fn wants_version(args: &Vec<String>) -> (r: bool)
    ensures
        r == exists|i: int|
            0 <= i < args@.len() && asks_version(#[trigger] text::texts(args@)[i]),
{
    let mut i: usize = 0;
    while i < args.len()
        invariant
            i <= args@.len(),
            forall|k: int| 0 <= k < i ==> !asks_version(#[trigger] text::texts(args@)[k]),
        decreases args@.len() - i,
    {
        let arg = args[i].as_str();
        assert(text::texts(args@)[i as int] == arg@);
        if text::same(arg, "--version") || text::same(arg, "-V") {
            assert(asks_version(text::texts(args@)[i as int]));
            return true;
        }
        i = i + 1;
    }
    false
}

impl Command {
    pub fn parse(args: &Vec<String>) -> (r: Command)
        ensures
            r.view() == command_of(text::texts(args@)),
    {
        if wants_version(args) {
            return Command::Version;
        }
        let mut options = Options {
            instance: DEFAULT_INSTANCE.to_owned(),
            token_env: DEFAULT_TOKEN_ENV.to_owned(),
            cache: None,
        };
        let ghost all = text::texts(args@);
        if args.len() == 0 {
            return Command::Serve(options);
        }
        let mut i: usize = 1;
        while i < args.len()
            invariant
                1 <= i <= args@.len(),
                all == text::texts(args@),
                command_of(all) == read_flags(all.skip(i as int), options.view()),
            decreases args@.len() - i,
        {
            let flag = args[i].as_str();
            let given: Option<String> = if i + 1 < args.len() {
                Some(args[i + 1].clone())
            } else {
                None
            };
            let ghost left = all.skip(i as int);
            proof {
                assert(left[0] == flag@);
                if i + 1 < args.len() {
                    assert(left[1] == args@[i + 1]@);
                    assert(left.skip(2) == all.skip(i + 2));
                }
                assert(api::maybe_text(given) == argument(left));
            }
            if text::same(flag, "--instance") {
                options.instance = or_empty(given);
            } else if text::same(flag, "--token-env") {
                options.token_env = or_empty(given);
            } else if text::same(flag, "--cache") {
                options.cache = given;
            } else {
                return Command::Unknown(flag.to_owned());
            }
            i = if i + 1 < args.len() {
                i + 2
            } else {
                args.len()
            };
            assert(after(left) == all.skip(i as int));
        }
        assert(all.skip(i as int) == Seq::<Seq<char>>::empty());
        Command::Serve(options)
    }
}

/// What the program says of its version.
pub fn version_line(version: &str) -> (r: String)
    ensures
        r@ == "rootle-gitlab "@ + version@,
{
    text::concat2("rootle-gitlab ", version)
}

fn or_empty(s: Option<String>) -> (r: String)
    ensures
        r@ == text_or_empty(api::maybe_text(s)),
{
    match s {
        Some(s) => s,
        None => "".to_owned(),
    }
}

// -- laws ------------------------------------------------------------------------------------

/// A question for the version counts wherever it stands, in its long and in its short form, and
/// nothing else is one.
pub proof fn versions_are_asked_for_anywhere(args: Seq<Seq<char>>, i: int)
    ensures
        0 <= i < args.len() && (args[i] == "--version"@ || args[i] == "-V"@) ==> command_of(args)
            is Version,
        (forall|k: int|
            0 <= k < args.len() ==> (#[trigger] args[k]) != "--version"@ && args[k] != "-V"@)
            ==> !(command_of(args) is Version),
{
    if 0 <= i < args.len() && (args[i] == "--version"@ || args[i] == "-V"@) {
        assert(asks_version(args[i]));
    }
    if forall|k: int|
        0 <= k < args.len() ==> (#[trigger] args[k]) != "--version"@ && args[k] != "-V"@ {
        assert forall|k: int| 0 <= k < args.len() implies !asks_version(#[trigger] args[k]) by {}
        flags_are_no_question(
            if args.len() > 0 {
                args.skip(1)
            } else {
                seq![]
            },
            default_options(),
        );
    }
}

proof fn flags_are_no_question(args: Seq<Seq<char>>, options: OptionsView)
    ensures
        !(read_flags(args, options) is Version),
    decreases args.len(),
{
    if args.len() > 0 {
        flags_are_no_question(
            after(args),
            OptionsView { instance: text_or_empty(argument(args)), ..options },
        );
        flags_are_no_question(
            after(args),
            OptionsView { token_env: text_or_empty(argument(args)), ..options },
        );
        flags_are_no_question(after(args), OptionsView { cache: argument(args), ..options });
    }
}

/// The name of the program is no flag. Without flags the provider serves GitLab's own instance
/// with the token from `GITLAB_TOKEN`, and the cache lies at its default place.
pub proof fn without_flags_the_defaults_hold(name: Seq<char>)
    requires
        !asks_version(name),
    ensures
        command_of(seq![name]) == CommandView::Serve(
            OptionsView {
                instance: "https://gitlab.com"@,
                token_env: "GITLAB_TOKEN"@,
                cache: None,
            },
        ),
        command_of(seq![]) == command_of(seq![name]),
{
    assert(seq![name].skip(1) =~= Seq::<Seq<char>>::empty());
    assert forall|i: int| 0 <= i < seq![name].len() implies !asks_version(
        #[trigger] seq![name][i],
    ) by {
        assert(seq![name][i] == name);
    }
}

/// Flags are read one after the other. Each sets its own option to its argument and leaves the
/// others as they are; at the end of the line the argument is empty, and the cache is at its
/// default place. A flag that is not known ends the reading.
pub proof fn flags_are_read_one_by_one(
    flag: Seq<char>,
    value: Seq<char>,
    rest: Seq<Seq<char>>,
    options: OptionsView,
)
    ensures
        read_flags(seq![], options) == CommandView::Serve(options),
        ({
            let whole = read_flags(seq![flag, value] + rest, options);
            let bare = read_flags(seq![flag], options);
            if flag == "--instance"@ {
                &&& whole == read_flags(rest, OptionsView { instance: value, ..options })
                &&& bare == CommandView::Serve(OptionsView { instance: ""@, ..options })
            } else if flag == "--token-env"@ {
                &&& whole == read_flags(rest, OptionsView { token_env: value, ..options })
                &&& bare == CommandView::Serve(OptionsView { token_env: ""@, ..options })
            } else if flag == "--cache"@ {
                &&& whole == read_flags(rest, OptionsView { cache: Some(value), ..options })
                &&& bare == CommandView::Serve(OptionsView { cache: None, ..options })
            } else {
                &&& whole == CommandView::Unknown(flag)
                &&& bare == CommandView::Unknown(flag)
            }
        }),
{
    let whole = seq![flag, value] + rest;
    reveal_strlit("--instance");
    reveal_strlit("--token-env");
    reveal_strlit("--cache");
    assert("--instance"@.len() == 10 && "--token-env"@.len() == 11 && "--cache"@.len() == 7);
    assert(whole[0] == flag && whole[1] == value);
    assert(whole.skip(2) =~= rest);
    assert(after(whole) == rest);
    assert(argument(whole) == Some(value));
    assert(after(seq![flag]) =~= Seq::<Seq<char>>::empty());
    reveal_with_fuel(read_flags, 2);
}

} // verus!
