//! The command that starts a source on this computer.
use vstd::prelude::*;

use super::settings::{address_field, parse_address, AddressError};
use crate::address_text::{address_text, write_address};
use crate::config::{Config, PeerModel};
use crate::lists::{join, join_with};
use crate::macos::source::may_receive_input;
use crate::scan::{trim, trimmed, views};

verus! {

#[derive(Debug, PartialEq, Eq)]
pub struct LaunchOptions {
    /// Place of the computer among the paired ones.
    pub peer: usize,
    /// An address instead of the paired ones, if it is not blank.
    pub address: String,
    pub no_touch: bool,
    pub reduce_wifi_latency: bool,
}

impl Default for LaunchOptions {
    fn default() -> (result: Self)
        ensures
            result.peer == 0,
            result.address@.len() == 0,
            !result.no_touch,
            !result.reduce_wifi_latency,
    {
        let address = String::new();
        LaunchOptions { peer: 0, address, no_touch: false, reduce_wifi_latency: false }
    }
}

#[derive(Clone, Copy, Debug, PartialEq, Eq, Structural)]
pub enum LaunchError {
    /// There is no such paired computer.
    NotPaired,
    /// The computer may not connect, or may not receive input.
    NotPermitted,
    Address(AddressError),
    /// The computer has no address, and none was entered.
    NoAddress,
}

/// Closes the quotes, adds a quote in double quotes, and opens them again.
pub open spec fn quoted_quote() -> Seq<char> {
    seq!['\'', '"', '\'', '"', '\'']
}

/// The inside of single quotes.
pub open spec fn escaped(value: Seq<char>) -> Seq<char>
    decreases value.len(),
{
    if value.len() == 0 {
        Seq::empty()
    } else if value.last() == '\'' {
        escaped(value.drop_last()) + quoted_quote()
    } else {
        escaped(value.drop_last()).push(value.last())
    }
}

pub open spec fn quoted(value: Seq<char>) -> Seq<char> {
    seq!['\''] + escaped(value) + seq!['\'']
}

/// An argument in quotes that a shell takes literally.
pub fn shell_quote(value: &str) -> (result: String)
    ensures
        result@ == quoted(value@),
{
    let len: usize = value.unicode_len();
    let mut text = "'".to_owned();
    proof {
        reveal_strlit("'");
        reveal_strlit("'\"'\"'");
        assert("'"@ =~= seq!['\'']);
        assert("'\"'\"'"@ =~= quoted_quote());
    }
    let mut at: usize = 0;
    assert(value@.take(0) =~= Seq::empty());
    assert(text@ =~= seq!['\''] + escaped(value@.take(0)));
    while at < len
        invariant
            len == value@.len(),
            at <= len,
            "'\"'\"'"@ == quoted_quote(),
            text@ == seq!['\''] + escaped(value@.take(at as int)),
        decreases len - at,
    {
        let ghost before = text@;
        assert(value@.take(at + 1).drop_last() =~= value@.take(at as int));
        if value.get_char(at) == '\'' {
            text.append("'\"'\"'");
            assert(text@ =~= seq!['\''] + escaped(value@.take(at + 1)));
        } else {
            assert(value@.subrange(at as int, at + 1) =~= seq![value@[at as int]]);
            text.append(value.substring_char(at, at + 1));
            assert(text@ =~= seq!['\''] + escaped(value@.take(at + 1)));
        }
        at = at + 1;
    }
    assert(value@.take(at as int) =~= value@);
    text.append("'");
    text
}

/// How a shell reads quotes and spaces.
pub enum QuoteMode {
    Plain,
    Single,
    Double,
}

/// What a shell has read: whole arguments, and the one that it is in.
pub struct ShellState {
    pub arguments: Seq<Seq<char>>,
    pub current: Option<Seq<char>>,
    pub mode: QuoteMode,
}

pub open spec fn grown(current: Option<Seq<char>>) -> Seq<char> {
    match current {
        Some(text) => text,
        None => Seq::empty(),
    }
}

impl ShellState {
    /// One more character. Inside single quotes nothing but the closing quote
    /// is special; of double quotes only what is needed for a quote is said.
    pub open spec fn read(self, c: char) -> ShellState {
        match self.mode {
            QuoteMode::Plain => if c == '\'' {
                ShellState {
                    current: Some(grown(self.current)),
                    mode: QuoteMode::Single,
                    ..self
                }
            } else if c == '"' {
                ShellState {
                    current: Some(grown(self.current)),
                    mode: QuoteMode::Double,
                    ..self
                }
            } else if c == ' ' {
                match self.current {
                    Some(text) => ShellState {
                        arguments: self.arguments.push(text),
                        current: None,
                        ..self
                    },
                    None => self,
                }
            } else {
                ShellState { current: Some(grown(self.current).push(c)), ..self }
            },
            QuoteMode::Single => if c == '\'' {
                ShellState { mode: QuoteMode::Plain, ..self }
            } else {
                ShellState { current: Some(grown(self.current).push(c)), ..self }
            },
            QuoteMode::Double => if c == '"' {
                ShellState { mode: QuoteMode::Plain, ..self }
            } else {
                ShellState { current: Some(grown(self.current).push(c)), ..self }
            },
        }
    }

    pub open spec fn read_all(self, text: Seq<char>) -> ShellState
        decreases text.len(),
    {
        if text.len() == 0 {
            self
        } else {
            self.read_all(text.drop_last()).read(text.last())
        }
    }
}

pub open spec fn shell_start() -> ShellState {
    ShellState { arguments: Seq::empty(), current: None, mode: QuoteMode::Plain }
}

/// The arguments that a shell takes from a line.
pub open spec fn shell_arguments(line: Seq<char>) -> Seq<Seq<char>> {
    let state = shell_start().read_all(line);
    match state.current {
        Some(text) => state.arguments.push(text),
        None => state.arguments,
    }
}

proof fn read_sum(state: ShellState, first: Seq<char>, second: Seq<char>)
    ensures
        state.read_all(first + second) == state.read_all(first).read_all(second),
    decreases second.len(),
{
    let whole = first + second;
    if second.len() == 0 {
        assert(whole =~= first);
    } else {
        read_sum(state, first, second.drop_last());
        assert(whole.drop_last() =~= first + second.drop_last());
        assert(whole.last() == second.last());
    }
}

proof fn read_escaped(state: ShellState, value: Seq<char>)
    requires
        state.mode is Single,
        state.current is Some,
    ensures
        state.read_all(escaped(value)) == (ShellState {
            current: Some(state.current->0 + value),
            ..state
        }),
    decreases value.len(),
{
    if value.len() == 0 {
        assert(state.current->0 + value =~= state.current->0);
    } else {
        let shorter = value.drop_last();
        let last = value.last();
        read_escaped(state, shorter);
        let before = state.read_all(escaped(shorter));
        assert(state.current->0 + value =~= (state.current->0 + shorter).push(last));
        if last == '\'' {
            read_sum(state, escaped(shorter), quoted_quote());
            let quote = quoted_quote();
            reveal_with_fuel(ShellState::read_all, 6);
            assert(quote.drop_last() =~= seq!['\'', '"', '\'', '"']);
            assert(quote.drop_last().drop_last() =~= seq!['\'', '"', '\'']);
            assert(quote.drop_last().drop_last().drop_last() =~= seq!['\'', '"']);
            assert(quote.drop_last().drop_last().drop_last().drop_last() =~= seq!['\'']);
            assert(quote.drop_last().drop_last().drop_last().drop_last().drop_last()
                =~= Seq::<char>::empty());
        } else {
            assert(escaped(value).drop_last() =~= escaped(shorter));
        }
    }
}

proof fn read_quoted(state: ShellState, value: Seq<char>)
    requires
        state.mode is Plain,
        state.current is None,
    ensures
        state.read_all(quoted(value)) == (ShellState { current: Some(value), ..state }),
{
    let open = seq!['\''];
    let text = open + escaped(value);
    assert(quoted(value).drop_last() =~= text);
    read_sum(state, open, escaped(value));
    assert(open.drop_last() =~= Seq::<char>::empty());
    reveal_with_fuel(ShellState::read_all, 2);
    let inside = state.read_all(open);
    assert(inside == (ShellState {
        current: Some(Seq::empty()),
        mode: QuoteMode::Single,
        ..state
    }));
    read_escaped(inside, value);
    assert(Seq::<char>::empty() + value =~= value);
}

pub open spec fn all_quoted(arguments: Seq<Seq<char>>) -> Seq<Seq<char>> {
    arguments.map_values(|argument: Seq<char>| quoted(argument))
}

proof fn read_line(arguments: Seq<Seq<char>>)
    requires
        arguments.len() > 0,
    ensures
        shell_start().read_all(join_with(all_quoted(arguments), seq![' '])) == (ShellState {
            arguments: arguments.drop_last(),
            current: Some(arguments.last()),
            mode: QuoteMode::Plain,
        }),
    decreases arguments.len(),
{
    let texts = all_quoted(arguments);
    if arguments.len() == 1 {
        read_quoted(shell_start(), arguments[0]);
        assert(arguments.drop_last() =~= Seq::empty());
    } else {
        let before = arguments.drop_last();
        read_line(before);
        assert(texts.drop_last() =~= all_quoted(before));
        let line = join_with(all_quoted(before), seq![' ']);
        let state = shell_start().read_all(line);
        read_sum(shell_start(), line, seq![' ']);
        assert(seq![' '].drop_last() =~= Seq::<char>::empty());
        reveal_with_fuel(ShellState::read_all, 2);
        let ready = shell_start().read_all(line + seq![' ']);
        assert(ready == state.read(' '));
        assert(before.drop_last().push(before.last()) =~= before);
        read_sum(shell_start(), line + seq![' '], quoted(arguments.last()));
        read_quoted(ready, arguments.last());
    }
}

/// A shell takes exactly the quoted arguments from a command, whatever
/// characters they hold.
pub proof fn quoted_arguments_stay_intact(arguments: Seq<Seq<char>>)
    requires
        arguments.len() > 0,
    ensures
        shell_arguments(join_with(all_quoted(arguments), seq![' '])) == arguments,
{
    read_line(arguments);
    assert(arguments.drop_last().push(arguments.last()) =~= arguments);
}

/// The arguments that start a source.
pub open spec fn source_arguments(
    path: Seq<char>,
    name: Seq<char>,
    options: LaunchOptions,
) -> Seq<Seq<char>> {
    seq!["zflow-macos-source"@, "--config"@, path, "--peer"@, name] + (if trimmed(
        options.address@,
    ).len() > 0 {
        seq!["--address"@, address_text(address_field(options.address@)->Ok_0)]
    } else {
        Seq::empty()
    }) + (if options.no_touch {
        seq!["--no-touch"@]
    } else {
        Seq::empty()
    }) + (if options.reduce_wifi_latency {
        seq!["--reduce-wifi-latency"@]
    } else {
        Seq::empty()
    })
}

/// Why no command can be given.
pub open spec fn launch_error(peer: PeerModel, options: LaunchOptions) -> Option<LaunchError> {
    if !may_receive_input(peer) {
        Some(LaunchError::NotPermitted)
    } else if trimmed(options.address@).len() > 0 {
        match address_field(options.address@) {
            Err(error) => Some(LaunchError::Address(error)),
            Ok(_) => None,
        }
    } else if peer.addresses.len() == 0 {
        Some(LaunchError::NoAddress)
    } else {
        None
    }
}

pub fn source_command(path: &str, config: &Config, options: &LaunchOptions) -> (result: Result<
    String,
    LaunchError,
>)
    requires
        config.wf(),
    ensures
        if options.peer >= config.peers.keys().len() {
            result == Err::<String, LaunchError>(LaunchError::NotPaired)
        } else {
            let name = config.peers.keys()[options.peer as int];
            match launch_error(config.paired()[name], *options) {
                Some(error) => result == Err::<String, LaunchError>(error),
                None => {
                    &&& result is Ok
                    &&& result->Ok_0@ == join_with(
                        all_quoted(source_arguments(path@, name, *options)),
                        " "@,
                    )
                    &&& shell_arguments(result->Ok_0@) == source_arguments(path@, name, *options)
                },
            }
        },
{
    if options.peer >= config.peers.len() {
        return Err(LaunchError::NotPaired);
    }
    let ghost name = config.peers.keys()[options.peer as int];
    proof {
        config.peers.entry_in_map(options.peer as int);
    }
    let peer = config.peers.value_at(options.peer);
    assert(config.paired()[name] == peer@);
    if !peer.permissions.connect || !peer.permissions.receive_normal {
        return Err(LaunchError::NotPermitted);
    }
    let mut texts: Vec<String> = Vec::new();
    texts.push(shell_quote("zflow-macos-source"));
    texts.push(shell_quote("--config"));
    texts.push(shell_quote(path));
    texts.push(shell_quote("--peer"));
    texts.push(shell_quote(config.peers.key_at(options.peer).as_str()));
    if trim(options.address.as_str()).unicode_len() > 0 {
        match parse_address(options.address.as_str()) {
            Ok(address) => {
                texts.push(shell_quote("--address"));
                texts.push(shell_quote(write_address(address).as_str()));
            },
            Err(error) => return Err(LaunchError::Address(error)),
        }
    } else if peer.addresses.len() == 0 {
        return Err(LaunchError::NoAddress);
    }
    if options.no_touch {
        texts.push(shell_quote("--no-touch"));
    }
    if options.reduce_wifi_latency {
        texts.push(shell_quote("--reduce-wifi-latency"));
    }
    assert(views(texts@) =~= all_quoted(source_arguments(path@, name, *options)));
    proof {
        reveal_strlit(" ");
        assert(" "@ =~= seq![' ']);
        quoted_arguments_stay_intact(source_arguments(path@, name, *options));
    }
    Ok(join(&texts, " "))
}

/// A command is offered exactly for a peer that may receive input and can be reached:
/// at the address that was entered, which must be a proper one, or at one of its own.
pub proof fn commands_are_offered_exactly_so(peer: PeerModel, options: LaunchOptions)
    ensures
        launch_error(peer, options) is None <==> {
            &&& peer.permissions.connect && peer.permissions.receive_normal
            &&& trimmed(options.address@).len() > 0 ==> address_field(options.address@) is Ok
            &&& trimmed(options.address@).len() == 0 ==> peer.addresses.len() > 0
        },
        launch_error(peer, options) == Some(LaunchError::NotPermitted) <==> !(
        peer.permissions.connect && peer.permissions.receive_normal),
{
}

/// The command names the configuration and the peer, then the address that was
/// entered, and each option exactly if it is chosen.
pub proof fn commands_say_what_was_chosen(
    path: Seq<char>,
    name: Seq<char>,
    options: LaunchOptions,
)
    ensures
        ({
            let arguments = source_arguments(path, name, options);
            let plain = source_arguments(
                path,
                name,
                LaunchOptions { no_touch: false, reduce_wifi_latency: false, ..options },
            );
            &&& arguments.take(5) == seq![
                "zflow-macos-source"@,
                "--config"@,
                path,
                "--peer"@,
                name,
            ]
            &&& trimmed(options.address@).len() == 0 ==> plain.len() == 5
            &&& trimmed(options.address@).len() > 0 ==> plain.len() == 7 && plain[5]
                == "--address"@ && plain[6] == address_text(address_field(options.address@)->Ok_0)
            &&& arguments == plain + (if options.no_touch {
                seq!["--no-touch"@]
            } else {
                seq![]
            }) + (if options.reduce_wifi_latency {
                seq!["--reduce-wifi-latency"@]
            } else {
                seq![]
            })
        }),
{
    let arguments = source_arguments(path, name, options);
    let plain = source_arguments(
        path,
        name,
        LaunchOptions { no_touch: false, reduce_wifi_latency: false, ..options },
    );
    assert(arguments.take(5) =~= seq![
        "zflow-macos-source"@,
        "--config"@,
        path,
        "--peer"@,
        name,
    ]);
    assert(arguments =~= plain + (if options.no_touch {
        seq!["--no-touch"@]
    } else {
        seq![]
    }) + (if options.reduce_wifi_latency {
        seq!["--reduce-wifi-latency"@]
    } else {
        seq![]
    }));
}

} // verus!
