//! The command processor: one trimmed line of input becomes a command, and a
//! command applied to the store becomes a reply.

use vstd::prelude::*;
use vstd::string::StringExecFns;
use crate::store::{
    all_upper_cased, distinct_keys, entry_lines, has_key, is_upper_cased, lemma_put, listing, put,
    value_of, well_formed, Store,
};
use crate::text::{
    eq_ignore_ascii_case, equal_ignoring_ascii_case, split_whitespace, starts_with, uppercase,
    views, whitespace_tokens,
};

verus! {

/// What a line of input asks for.
#[derive(Debug)]
pub enum Command {
    /// Store `value`, upper-cased, under `key`.
    SetKey { key: String, value: String },
    /// A line that begins with `SET` and does not have three tokens.
    InvalidSet,
    /// Look `key` up.
    GetKey { key: String },
    /// A line that begins with `GET` and does not have two tokens.
    InvalidGet,
    /// List every entry.
    Show,
    /// Anything else.
    Unknown,
}

/// The mathematical value of a [`Command`].
pub ghost enum CommandView {
    SetKey { key: Seq<char>, value: Seq<char> },
    InvalidSet,
    GetKey { key: Seq<char> },
    InvalidGet,
    Show,
    Unknown,
}

impl View for Command {
    type V = CommandView;

    open spec fn view(&self) -> CommandView {
        match self {
            Command::SetKey { key, value } => CommandView::SetKey { key: key@, value: value@ },
            Command::InvalidSet => CommandView::InvalidSet,
            Command::GetKey { key } => CommandView::GetKey { key: key@ },
            Command::InvalidGet => CommandView::InvalidGet,
            Command::Show => CommandView::Show,
            Command::Unknown => CommandView::Unknown,
        }
    }
}

/// The command that a line with the given whitespace-separated tokens asks
/// for. The keywords `SET` and `GET` are recognised as prefixes of the line,
/// whatever follows them; `SHOW` is the whole line, in any case.
pub open spec fn command_of(input: Seq<char>, tokens: Seq<Seq<char>>) -> CommandView {
    if "SET"@.is_prefix_of(input) {
        if tokens.len() == 3 {
            CommandView::SetKey { key: tokens[1], value: tokens[2] }
        } else {
            CommandView::InvalidSet
        }
    } else if "GET"@.is_prefix_of(input) {
        if tokens.len() == 2 {
            CommandView::GetKey { key: tokens[1] }
        } else {
            CommandView::InvalidGet
        }
    } else if equal_ignoring_ascii_case(input, "SHOW"@) {
        CommandView::Show
    } else {
        CommandView::Unknown
    }
}

/// The command that a line asks for.
pub open spec fn parse(input: Seq<char>) -> CommandView {
    command_of(input, whitespace_tokens(input))
}

/// The reply to a command, given the store's entries before it.
pub open spec fn reply_to(command: CommandView, entries: Seq<(Seq<char>, Seq<char>)>) -> Seq<
    char,
> {
    match command {
        CommandView::SetKey { key, value } => "[+] Key "@ + key + " set successfully\n"@,
        CommandView::InvalidSet => "[-] Invalid SET command\n"@,
        CommandView::GetKey { key } => match value_of(entries, key) {
            Some(value) => "Value: "@ + value + "\n"@,
            None => "[!] Key not found\n"@,
        },
        CommandView::InvalidGet => "[-] Invalid GET command\n"@,
        CommandView::Show => if entries.len() == 0 {
            "[!] Database is empty!\n"@
        } else {
            "[*] Database contents:\n"@ + listing(entries)
        },
        CommandView::Unknown => "[!] Unknown command\n"@,
    }
}

/// The store's entries after a command, given those before it. Only `SetKey`
/// changes them.
pub open spec fn entries_after(
    command: CommandView,
    entries: Seq<(Seq<char>, Seq<char>)>,
) -> Seq<(Seq<char>, Seq<char>)> {
    match command {
        CommandView::SetKey { key, value } => put(entries, key, uppercase(value)),
        _ => entries,
    }
}

/// The store's entries after a run of commands, applied first to last.
pub open spec fn entries_after_all(
    commands: Seq<CommandView>,
    entries: Seq<(Seq<char>, Seq<char>)>,
) -> Seq<(Seq<char>, Seq<char>)>
    decreases commands.len(),
{
    if commands.len() == 0 {
        entries
    } else {
        entries_after(commands.last(), entries_after_all(commands.drop_last(), entries))
    }
}

/// Whether a command stores something under `key`.
pub open spec fn sets_key(command: CommandView, key: Seq<char>) -> bool {
    match command {
        CommandView::SetKey { key: k, .. } => k == key,
        _ => false,
    }
}

/// No command lets a key occur twice.
pub proof fn lemma_commands_keep_keys_distinct(
    commands: Seq<CommandView>,
    entries: Seq<(Seq<char>, Seq<char>)>,
)
    requires
        distinct_keys(entries),
    ensures
        distinct_keys(entries_after_all(commands, entries)),
    decreases commands.len(),
{
    if commands.len() > 0 {
        lemma_commands_keep_keys_distinct(commands.drop_last(), entries);
        match commands.last() {
            CommandView::SetKey { key, value } => {
                lemma_put(entries_after_all(commands.drop_last(), entries), key, uppercase(value));
            },
            _ => {},
        }
    }
}

/// A run of commands none of which sets `key` leaves what is stored under
/// `key` as it was: the same value, or none.
pub proof fn lemma_other_commands_keep_value(
    commands: Seq<CommandView>,
    entries: Seq<(Seq<char>, Seq<char>)>,
    key: Seq<char>,
)
    requires
        distinct_keys(entries),
        forall|i: int| 0 <= i < commands.len() ==> !sets_key(#[trigger] commands[i], key),
    ensures
        value_of(entries_after_all(commands, entries), key) == value_of(entries, key),
    decreases commands.len(),
{
    if commands.len() > 0 {
        let earlier = commands.drop_last();
        assert forall|i: int| 0 <= i < earlier.len() implies !sets_key(
            #[trigger] earlier[i],
            key,
        ) by {
            assert(earlier[i] == commands[i]);
        }
        lemma_other_commands_keep_value(earlier, entries, key);
        lemma_commands_keep_keys_distinct(earlier, entries);
        assert(!sets_key(commands[commands.len() - 1], key));
        match commands.last() {
            CommandView::SetKey { key: k, value } => {
                lemma_put(entries_after_all(earlier, entries), k, uppercase(value));
            },
            _ => {},
        }
    }
}

/// After `value` is set under `key`, looking `key` up gives the upper-cased
/// `value`, and goes on doing so through every run of commands that does not
/// set `key` again.
pub proof fn lemma_get_after_set(
    entries: Seq<(Seq<char>, Seq<char>)>,
    key: Seq<char>,
    value: Seq<char>,
    later: Seq<CommandView>,
)
    requires
        distinct_keys(entries),
        forall|i: int| 0 <= i < later.len() ==> !sets_key(#[trigger] later[i], key),
    ensures
        reply_to(
            CommandView::GetKey { key },
            entries_after_all(later, entries_after(CommandView::SetKey { key, value }, entries)),
        ) == "Value: "@ + uppercase(value) + "\n"@,
{
    lemma_put(entries, key, uppercase(value));
    lemma_other_commands_keep_value(later, put(entries, key, uppercase(value)), key);
}

/// A line that begins with `SET` and has another number of tokens than three
/// gets the invalid-`SET` reply and leaves the store as it was.
pub proof fn lemma_malformed_set(input: Seq<char>, entries: Seq<(Seq<char>, Seq<char>)>)
    requires
        "SET"@.is_prefix_of(input),
        whitespace_tokens(input).len() != 3,
    ensures
        reply_to(parse(input), entries) == "[-] Invalid SET command\n"@,
        entries_after(parse(input), entries) == entries,
{
}

/// Looking up a key that no command has set, from an empty store on, gives
/// the not-found reply.
pub proof fn lemma_get_never_set(commands: Seq<CommandView>, key: Seq<char>)
    requires
        forall|i: int| 0 <= i < commands.len() ==> !sets_key(#[trigger] commands[i], key),
    ensures
        reply_to(
            CommandView::GetKey { key },
            entries_after_all(commands, Seq::<(Seq<char>, Seq<char>)>::empty()),
        ) == "[!] Key not found\n"@,
{
    let empty = Seq::<(Seq<char>, Seq<char>)>::empty();
    lemma_other_commands_keep_value(commands, empty, key);
    assert(!has_key(empty, key));
}

/// `SHOW` on an empty store gives the empty-database reply and nothing else.
pub proof fn lemma_show_empty()
    ensures
        reply_to(CommandView::Show, Seq::<(Seq<char>, Seq<char>)>::empty())
            == "[!] Database is empty!\n"@,
{
}

/// Commands never store anything but upper-cased values: if every value was
/// upper-cased before a run of commands, every value is so after it.
pub proof fn lemma_stored_values_are_upper_cased(
    commands: Seq<CommandView>,
    entries: Seq<(Seq<char>, Seq<char>)>,
)
    requires
        all_upper_cased(entries),
    ensures
        all_upper_cased(entries_after_all(commands, entries)),
    decreases commands.len(),
{
    if commands.len() > 0 {
        let before = entries_after_all(commands.drop_last(), entries);
        lemma_stored_values_are_upper_cased(commands.drop_last(), entries);
        match commands.last() {
            CommandView::SetKey { key, value } => {
                let after = put(before, key, uppercase(value));
                assert(is_upper_cased(uppercase(value)));
                assert forall|i: int| 0 <= i < after.len() implies is_upper_cased(
                    (#[trigger] after[i]).1,
                ) by {
                    if after[i] != (key, uppercase(value)) {
                        assert(after[i] == before[i]);
                    }
                }
            },
            _ => {},
        }
    }
}

/// The keys and upper-cased values of a run of `SetKey` commands, one entry
/// for each command.
pub open spec fn entries_set_by(keys: Seq<Seq<char>>, values: Seq<Seq<char>>) -> Seq<
    (Seq<char>, Seq<char>),
> {
    Seq::new(keys.len(), |i: int| (keys[i], uppercase(values[i])))
}

/// The `SetKey` commands that store `values[i]` under `keys[i]`.
pub open spec fn set_commands(keys: Seq<Seq<char>>, values: Seq<Seq<char>>) -> Seq<CommandView> {
    Seq::new(keys.len(), |i: int| CommandView::SetKey { key: keys[i], value: values[i] })
}

/// From an empty store, setting N different keys leaves N entries, one for
/// each key with its upper-cased value, in the order of the commands.
pub proof fn lemma_distinct_sets(keys: Seq<Seq<char>>, values: Seq<Seq<char>>)
    requires
        keys.len() == values.len(),
        keys.no_duplicates(),
    ensures
        entries_after_all(set_commands(keys, values), Seq::<(Seq<char>, Seq<char>)>::empty())
            == entries_set_by(keys, values),
    decreases keys.len(),
{
    let empty = Seq::<(Seq<char>, Seq<char>)>::empty();
    let commands = set_commands(keys, values);
    if keys.len() == 0 {
        assert(entries_set_by(keys, values) =~= empty);
    } else {
        let n = keys.len() - 1;
        let k = keys.drop_last();
        let v = values.drop_last();
        lemma_distinct_sets(k, v);
        assert(commands.drop_last() =~= set_commands(k, v));
        let before = entries_set_by(k, v);
        assert(commands.last() == CommandView::SetKey { key: keys[n], value: values[n] });
        assert(!has_key(before, keys[n])) by {
            if has_key(before, keys[n]) {
                let i = choose|i: int| 0 <= i < before.len() && (#[trigger] before[i]).0 == keys[n];
                assert(keys[i] == keys[n]);
            }
        }
        assert(before.push((keys[n], uppercase(values[n]))) =~= entries_set_by(keys, values));
    }
}

/// `SHOW` on a store that is not empty gives the header and then one line
/// for each entry: its key, a space, its value, a line feed.
pub proof fn lemma_show_lists_every_entry(entries: Seq<(Seq<char>, Seq<char>)>)
    requires
        entries.len() > 0,
    ensures
        reply_to(CommandView::Show, entries) == "[*] Database contents:\n"@ + entry_lines(
            entries,
        ).flatten(),
        entry_lines(entries).len() == entries.len(),
        forall|i: int|
            0 <= i < entries.len() ==> (#[trigger] entry_lines(entries)[i]) == entries[i].0 + " "@
                + entries[i].1 + "\n"@,
{
}

/// From an empty store, after N different keys were set, N at least one,
/// `SHOW` gives the header and then exactly N lines, one for each key, with
/// the upper-cased value that was set for it.
pub proof fn lemma_show_after_distinct_sets(keys: Seq<Seq<char>>, values: Seq<Seq<char>>)
    requires
        keys.len() == values.len(),
        keys.len() > 0,
        keys.no_duplicates(),
    ensures
        ({
            let entries = entries_after_all(
                set_commands(keys, values),
                Seq::<(Seq<char>, Seq<char>)>::empty(),
            );
            &&& reply_to(CommandView::Show, entries) == "[*] Database contents:\n"@ + entry_lines(
                entries,
            ).flatten()
            &&& entry_lines(entries).len() == keys.len()
            &&& forall|i: int|
                0 <= i < keys.len() ==> (#[trigger] entry_lines(entries)[i]) == keys[i] + " "@
                    + uppercase(values[i]) + "\n"@
        }),
{
    lemma_distinct_sets(keys, values);
    lemma_show_lists_every_entry(entries_set_by(keys, values));
}

/// Two `SetKey` commands on one key, in either order, leave the upper-cased
/// value of the one that came second, whole: looking the key up gives one of
/// the two values and never anything else.
pub proof fn lemma_last_set_wins(
    entries: Seq<(Seq<char>, Seq<char>)>,
    key: Seq<char>,
    first: Seq<char>,
    second: Seq<char>,
)
    requires
        distinct_keys(entries),
    ensures
        value_of(put(put(entries, key, uppercase(first)), key, uppercase(second)), key) == Some(
            uppercase(second),
        ),
        value_of(put(put(entries, key, uppercase(second)), key, uppercase(first)), key) == Some(
            uppercase(first),
        ),
{
    lemma_put(entries, key, uppercase(first));
    lemma_put(entries, key, uppercase(second));
    lemma_put(put(entries, key, uppercase(first)), key, uppercase(second));
    lemma_put(put(entries, key, uppercase(second)), key, uppercase(first));
}

/// The command that `input` asks for, given its whitespace-separated tokens.
pub fn command_from_tokens(input: &str, tokens: &Vec<String>) -> (command: Command)
    ensures
        command@ == command_of(input@, views(tokens@)),
{
    if starts_with(input, "SET") {
        if tokens.len() == 3 {
            Command::SetKey { key: tokens[1].clone(), value: tokens[2].clone() }
        } else {
            Command::InvalidSet
        }
    } else if starts_with(input, "GET") {
        if tokens.len() == 2 {
            Command::GetKey { key: tokens[1].clone() }
        } else {
            Command::InvalidGet
        }
    } else if eq_ignore_ascii_case(input, "SHOW") {
        Command::Show
    } else {
        Command::Unknown
    }
}

/// The command that `input`, a line without its surrounding whitespace, asks
/// for.
pub fn parse_command(input: &str) -> (command: Command)
    ensures
        command@ == parse(input@),
{
    let tokens = split_whitespace(input);
    command_from_tokens(input, &tokens)
}

impl Command {
    /// Whether the command changes the store, and so needs it exclusively.
    pub fn writes(&self) -> (writes: bool)
        ensures
            writes == (self@ is SetKey),
    {
        match self {
            Command::SetKey { .. } => true,
            _ => false,
        }
    }

    /// The reply to the command, given the store as it is before the command
    /// is applied.
    pub fn reply(&self, store: &Store) -> (text: String)
        ensures
            text@ == reply_to(self@, store@),
            well_formed(store@),
    {
        let empty = store.is_empty();
        match self {
            Command::SetKey { key, .. } => {
                let mut text = String::from_str("[+] Key ");
                text.append(key.as_str());
                text.append(" set successfully\n");
                text
            },
            Command::InvalidSet => String::from_str("[-] Invalid SET command\n"),
            Command::GetKey { key } => match store.get(key.as_str()) {
                Some(value) => {
                    let mut text = String::from_str("Value: ");
                    text.append(value.as_str());
                    text.append("\n");
                    text
                },
                None => String::from_str("[!] Key not found\n"),
            },
            Command::InvalidGet => String::from_str("[-] Invalid GET command\n"),
            Command::Show => if empty {
                String::from_str("[!] Database is empty!\n")
            } else {
                let mut text = String::from_str("[*] Database contents:\n");
                let lines = store.listing();
                text.append(lines.as_str());
                text
            },
            Command::Unknown => String::from_str("[!] Unknown command\n"),
        }
    }

    /// The reply to a command that only reads the store; `None` for `SetKey`,
    /// which has to go through [`Command::run`].
    pub fn answer(&self, store: &Store) -> (reply: Option<String>)
        ensures
            reply is None == (self@ is SetKey),
            reply matches Some(text) ==> text@ == reply_to(self@, store@),
            well_formed(store@),
    {
        let text = self.reply(store);
        match self {
            Command::SetKey { .. } => None,
            _ => Some(text),
        }
    }

    /// Applies the command to the store and gives the reply.
    pub fn run(&self, store: &mut Store) -> (reply: String)
        ensures
            reply@ == reply_to(self@, old(store)@),
            final(store)@ == entries_after(self@, old(store)@),
            well_formed(final(store)@),
    {
        let text = self.reply(store);
        match self {
            Command::SetKey { key, value } => {
                store.set(key.as_str(), value.as_str());
            },
            _ => {},
        }
        text
    }
}

/// Parses one trimmed line of input, applies it to the store and gives the
/// reply, which ends in a line feed.
pub fn process_message(input: &str, store: &mut Store) -> (reply: String)
    ensures
        reply@ == reply_to(parse(input@), old(store)@),
        final(store)@ == entries_after(parse(input@), old(store)@),
        well_formed(final(store)@),
{
    let command = parse_command(input);
    command.run(store)
}

} // verus!
