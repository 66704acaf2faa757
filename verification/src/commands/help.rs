//! Looking up commands by name or alias, and the help card that lists them.
use vstd::prelude::*;
use crate::text::{chars_of, push_char};

verus! {

/// A parameter of a command, as the help card shows it.
pub struct CommandParam {
    pub name: String,
    pub required: bool,
}

/// What the help card needs to know of a command.
pub struct CommandInfo {
    pub name: String,
    pub qualified_name: String,
    pub aliases: Vec<String>,
    pub description: Option<String>,
    pub parameters: Vec<CommandParam>,
    pub subcommands: Vec<CommandInfo>,
}

/// True for the characters that have the Unicode `White_Space` property,
/// which `char::is_whitespace` tests.
pub open spec fn is_whitespace(c: char) -> bool {
    let v = c as int;
    ||| 0x9 <= v <= 0xD
    ||| v == 0x20
    ||| v == 0x85
    ||| v == 0xA0
    ||| v == 0x1680
    ||| 0x2000 <= v <= 0x200A
    ||| v == 0x2028
    ||| v == 0x2029
    ||| v == 0x202F
    ||| v == 0x205F
    ||| v == 0x3000
}

/// The text without its leading whitespace.
pub open spec fn trim_start(s: Seq<char>) -> Seq<char>
    decreases s.len(),
{
    if s.len() > 0 && is_whitespace(s[0]) {
        trim_start(s.drop_first())
    } else {
        s
    }
}

/// `k` is the position of the first whitespace character in `s`.
pub open spec fn is_first_whitespace(s: Seq<char>, k: int) -> bool {
    &&& 0 <= k < s.len()
    &&& is_whitespace(s[k])
    &&& forall|j: int| 0 <= j < k ==> !is_whitespace(#[trigger] s[j])
}

/// A message split at its first whitespace character into the first word
/// and the rest, without the rest's leading whitespace; a message without
/// whitespace is all first word.
pub open spec fn split_first_word(s: Seq<char>) -> (Seq<char>, Seq<char>) {
    if exists|k: int| is_first_whitespace(s, k) {
        let k = choose|k: int| is_first_whitespace(s, k);
        (s.take(k), trim_start(s.skip(k + 1)))
    } else {
        (s, seq![])
    }
}

/// The character with an upper-case ASCII letter lowered, as a number.
pub open spec fn ascii_lower(c: char) -> int {
    if 65 <= c as int <= 90 {
        c as int + 32
    } else {
        c as int
    }
}

/// Equality of two texts, optionally ignoring the case of ASCII letters.
pub open spec fn names_equal(a: Seq<char>, b: Seq<char>, case_insensitive: bool) -> bool {
    if case_insensitive {
        &&& a.len() == b.len()
        &&& forall|i: int| 0 <= i < a.len() ==> ascii_lower(#[trigger] a[i]) == ascii_lower(b[i])
    } else {
        a == b
    }
}

/// The command goes by the given name, as its own name or as an alias.
pub open spec fn answers_to(c: CommandInfo, word: Seq<char>, case_insensitive: bool) -> bool {
    ||| names_equal(c.name@, word, case_insensitive)
    ||| exists|a: int|
        0 <= a < c.aliases@.len() && names_equal(#[trigger] c.aliases@[a]@, word, case_insensitive)
}

/// `i` is the position of the first command that goes by the name.
pub open spec fn is_first_match(
    commands: Seq<CommandInfo>,
    word: Seq<char>,
    case_insensitive: bool,
    i: int,
) -> bool {
    &&& 0 <= i < commands.len()
    &&& answers_to(commands[i], word, case_insensitive)
    &&& forall|j: int| 0 <= j < i ==> !answers_to(#[trigger] commands[j], word, case_insensitive)
}

/// The command that a message names, looked up by its first word among
/// `commands` and then, with the rest of the message, among that command's
/// subcommands, as deep as the words lead; with the word that named it and
/// the rest of the message after that word.
pub open spec fn command_lookup(
    commands: Seq<CommandInfo>,
    message: Seq<char>,
    case_insensitive: bool,
) -> Option<(CommandInfo, Seq<char>, Seq<char>)>
    decreases commands,
{
    let (word, rest) = split_first_word(message);
    if exists|i: int| is_first_match(commands, word, case_insensitive, i) {
        let i = choose|i: int| is_first_match(commands, word, case_insensitive, i);
        let c = commands[i];
        proof {
            assert(decreases_to!(commands => commands[i]));
            assert(decreases_to!(commands[i] => commands[i].subcommands));
            assert(decreases_to!(commands[i].subcommands => commands[i].subcommands@));
        }
        match command_lookup(c.subcommands@, rest, case_insensitive) {
            Some(found) => Some(found),
            None => Some((c, word, rest)),
        }
    } else {
        None
    }
}

/// Law: a message that is one word, without whitespace, finds the first
/// command that goes by that word (by name or alias); when that command has
/// no subcommands, the lookup gives it with the word and nothing after it.
pub proof fn law_lookup_finds_named_command(
    commands: Seq<CommandInfo>,
    word: Seq<char>,
    case_insensitive: bool,
    i: int,
)
    requires
        is_first_match(commands, word, case_insensitive, i),
        forall|k: int| 0 <= k < word.len() ==> !is_whitespace(#[trigger] word[k]),
        commands[i].subcommands@.len() == 0,
    ensures
        command_lookup(commands, word, case_insensitive) == Some(
            (commands[i], word, Seq::<char>::empty()),
        ),
{
    assert(!exists|k: int| is_first_whitespace(word, k));
    assert(split_first_word(word) == (word, Seq::<char>::empty()));
    assert forall|i2: int| is_first_match(commands, word, case_insensitive, i2) implies i2 == i by {
        if i2 < i {
            assert(!answers_to(commands[i2], word, case_insensitive));
        }
        if i < i2 {
            assert(!answers_to(commands[i], word, case_insensitive));
        }
    }
    let empty = Seq::<char>::empty();
    assert(split_first_word(empty) == (empty, empty));
    assert(!exists|j: int| is_first_match(commands[i].subcommands@, empty, case_insensitive, j));
    assert(command_lookup(commands[i].subcommands@, empty, case_insensitive) is None);
}

/// Law: a command goes by its own name and by every one of its aliases,
/// not only the first.
pub proof fn law_every_alias_counts(c: CommandInfo, word: Seq<char>, case_insensitive: bool, k: int)
    requires
        0 <= k < c.aliases@.len(),
        names_equal(c.aliases@[k]@, word, case_insensitive),
    ensures
        answers_to(c, word, case_insensitive),
{
}

/// Law: a one-word query (no whitespace) that equals any alias of a
/// command finds that command, when no earlier command has that word as its
/// name or as any of its aliases and the command has no subcommands; the
/// word is given back and nothing follows it.
pub proof fn law_lookup_finds_command_by_any_alias(
    commands: Seq<CommandInfo>,
    word: Seq<char>,
    case_insensitive: bool,
    i: int,
    k: int,
)
    requires
        0 <= i < commands.len(),
        0 <= k < commands[i].aliases@.len(),
        names_equal(commands[i].aliases@[k]@, word, case_insensitive),
        forall|j: int|
            0 <= j < i ==> !names_equal(#[trigger] commands[j].name@, word, case_insensitive),
        forall|j: int, a: int|
            0 <= j < i && 0 <= a < commands[j].aliases@.len() ==> !names_equal(
                #[trigger] commands[j].aliases@[a]@,
                word,
                case_insensitive,
            ),
        forall|p: int| 0 <= p < word.len() ==> !is_whitespace(#[trigger] word[p]),
        commands[i].subcommands@.len() == 0,
    ensures
        command_lookup(commands, word, case_insensitive) == Some(
            (commands[i], word, Seq::<char>::empty()),
        ),
{
    law_every_alias_counts(commands[i], word, case_insensitive, k);
    assert forall|j: int| 0 <= j < i implies !answers_to(#[trigger] commands[j], word, case_insensitive) by {
        assert(!names_equal(commands[j].name@, word, case_insensitive));
        assert forall|a: int| 0 <= a < commands[j].aliases@.len() implies !names_equal(
            #[trigger] commands[j].aliases@[a]@,
            word,
            case_insensitive,
        ) by {}
    }
    assert(is_first_match(commands, word, case_insensitive, i));
    law_lookup_finds_named_command(commands, word, case_insensitive, i);
}

fn is_whitespace_char(c: char) -> (b: bool)
    ensures
        b == is_whitespace(c),
{
    let v = c as u32;
    (0x9 <= v && v <= 0xD) || v == 0x20 || v == 0x85 || v == 0xA0 || v == 0x1680 || (0x2000 <= v
        && v <= 0x200A) || v == 0x2028 || v == 0x2029 || v == 0x202F || v == 0x205F || v == 0x3000
}

/// The characters `cs[from..to]` as a string.
fn string_from_chars(cs: &Vec<char>, from: usize, to: usize) -> (s: String)
    requires
        from <= to <= cs@.len(),
    ensures
        s@ == cs@.subrange(from as int, to as int),
{
    let mut s = String::new();
    let mut i = from;
    while i < to
        invariant
            from <= i <= to,
            to <= cs@.len(),
            s@ == cs@.subrange(from as int, i as int),
        decreases to - i,
    {
        push_char(&mut s, cs[i]);
        i = i + 1;
        assert(s@ =~= cs@.subrange(from as int, i as int));
    }
    s
}

/// The position of the first character at or after `from` that is not
/// whitespace (or the end).
fn skip_whitespace(cs: &Vec<char>, from: usize) -> (k: usize)
    requires
        from <= cs@.len(),
    ensures
        from <= k <= cs@.len(),
        trim_start(cs@.skip(from as int)) == cs@.skip(k as int),
{
    let mut i = from;
    while i < cs.len() && is_whitespace_char(cs[i])
        invariant
            from <= i <= cs@.len(),
            trim_start(cs@.skip(from as int)) == trim_start(cs@.skip(i as int)),
        decreases cs@.len() - i,
    {
        assert(cs@.skip(i as int).drop_first() =~= cs@.skip(i + 1));
        i = i + 1;
    }
    if i == cs.len() {
        assert(cs@.skip(i as int) =~= Seq::<char>::empty());
    }
    i
}

/// Where the first word of the message ends and where the rest begins.
fn split_first_word_at(cs: &Vec<char>) -> (r: (usize, usize))
    ensures
        r.0 <= r.1 <= cs@.len(),
        split_first_word(cs@) == (cs@.take(r.0 as int), cs@.skip(r.1 as int)),
{
    let mut k: usize = 0;
    while k < cs.len() && !is_whitespace_char(cs[k])
        invariant
            k <= cs@.len(),
            forall|j: int| 0 <= j < k ==> !is_whitespace(#[trigger] cs@[j]),
        decreases cs@.len() - k,
    {
        k = k + 1;
    }
    if k < cs.len() {
        assert(is_first_whitespace(cs@, k as int));
        assert forall|k2: int| is_first_whitespace(cs@, k2) implies k2 == k by {
            if k2 < k {
                assert(!is_whitespace(cs@[k2]));
            }
            if k < k2 {
                assert(!is_whitespace(cs@[k as int]));
            }
        }
        let rest = skip_whitespace(cs, k + 1);
        (k, rest)
    } else {
        assert(cs@.take(k as int) =~= cs@);
        assert(cs@.skip(k as int) =~= Seq::<char>::empty());
        (k, k)
    }
}

fn ascii_lower_code(c: char) -> (v: u32)
    ensures
        v as int == ascii_lower(c),
{
    let v = c as u32;
    if 65 <= v && v <= 90 {
        v + 32
    } else {
        v
    }
}

/// Whether two texts are equal, optionally ignoring the case of ASCII letters.
fn texts_equal(a: &Vec<char>, b: &Vec<char>, case_insensitive: bool) -> (r: bool)
    ensures
        r == names_equal(a@, b@, case_insensitive),
{
    if a.len() != b.len() {
        return false;
    }
    let mut i: usize = 0;
    while i < a.len()
        invariant
            a@.len() == b@.len(),
            i <= a@.len(),
            forall|j: int|
                0 <= j < i ==> if case_insensitive {
                    ascii_lower(#[trigger] a@[j]) == ascii_lower(b@[j])
                } else {
                    a@[j] == b@[j]
                },
        decreases a@.len() - i,
    {
        let x = a[i];
        let y = b[i];
        let same = if case_insensitive {
            ascii_lower_code(x) == ascii_lower_code(y)
        } else {
            x == y
        };
        if !same {
            assert(a@[i as int] != b@[i as int] || ascii_lower(a@[i as int]) != ascii_lower(b@[i as int]));
            return false;
        }
        i = i + 1;
    }
    if !case_insensitive {
        assert(a@ =~= b@);
    }
    true
}

/// Whether the command goes by the given name, as its own name or an alias.
fn command_answers_to(c: &CommandInfo, word: &Vec<char>, case_insensitive: bool) -> (r: bool)
    ensures
        r == answers_to(*c, word@, case_insensitive),
{
    let name = chars_of(c.name.as_str());
    if texts_equal(&name, word, case_insensitive) {
        return true;
    }
    let mut a: usize = 0;
    while a < c.aliases.len()
        invariant
            a <= c.aliases@.len(),
            forall|j: int| 0 <= j < a ==> !names_equal(#[trigger] c.aliases@[j]@, word@, case_insensitive),
        decreases c.aliases@.len() - a,
    {
        let alias = chars_of(c.aliases[a].as_str());
        if texts_equal(&alias, word, case_insensitive) {
            return true;
        }
        a = a + 1;
    }
    false
}

/// Finds the command that a message names: its first word names one of
/// `commands` (by name or alias, the first that matches), and the rest of
/// the message names one of that command's subcommands, as far as it goes.
/// Gives the command, the word that named it and the rest of the message.
pub fn find_command<'a>(commands: &'a Vec<CommandInfo>, message: &str, case_insensitive: bool) -> (r:
    Option<(&'a CommandInfo, String, String)>)
    ensures
        r matches Some(found) ==> command_lookup(commands@, message@, case_insensitive) == Some(
            (*found.0, found.1@, found.2@),
        ),
        r is None ==> command_lookup(commands@, message@, case_insensitive) is None,
    decreases commands@,
{
    let cs = chars_of(message);
    let (word_end, rest_start) = split_first_word_at(&cs);
    let word = string_from_chars(&cs, 0, word_end);
    let rest = string_from_chars(&cs, rest_start, cs.len());
    let word_chars = chars_of(word.as_str());
    assert(split_first_word(message@) == (word@, rest@));
    proof {
        assert(cs@.subrange(0, word_end as int) =~= cs@.take(word_end as int));
        assert(cs@.subrange(rest_start as int, cs@.len() as int) =~= cs@.skip(rest_start as int));
    }
    let mut i: usize = 0;
    while i < commands.len()
        invariant
            i <= commands@.len(),
            word_chars@ == word@,
            split_first_word(message@) == (word@, rest@),
            forall|j: int| 0 <= j < i ==> !answers_to(#[trigger] commands@[j], word@, case_insensitive),
        decreases commands@.len() - i,
    {
        if command_answers_to(&commands[i], &word_chars, case_insensitive) {
            assert(is_first_match(commands@, word@, case_insensitive, i as int));
            assert forall|i2: int| is_first_match(commands@, word@, case_insensitive, i2) implies i2
                == i by {
                if i2 < i {
                    assert(!answers_to(commands@[i2], word@, case_insensitive));
                }
                if i < i2 {
                    assert(!answers_to(commands@[i as int], word@, case_insensitive));
                }
            }
            proof {
                assert(decreases_to!(commands@ => commands@[i as int]));
                assert(decreases_to!(commands@[i as int] => commands@[i as int].subcommands));
                assert(decreases_to!(commands@[i as int].subcommands => commands@[i as int].subcommands@));
            }
            let sub = find_command(&commands[i].subcommands, rest.as_str(), case_insensitive);
            assert(command_lookup(commands@, message@, case_insensitive) == match command_lookup(
                commands@[i as int].subcommands@,
                rest@,
                case_insensitive,
            ) {
                Some(f) => Some(f),
                None => Some((commands@[i as int], word@, rest@)),
            });
            return match sub {
                Some(found) => Some(found),
                None => Some((&commands[i], word, rest)),
            };
        }
        i = i + 1;
    }
    None
}

/// How a parameter is listed: `<name> ` when it is required, `[name] ` when not.
pub open spec fn param_text(p: CommandParam) -> Seq<char> {
    if p.required {
        seq!['<'] + p.name@ + seq!['>', ' ']
    } else {
        seq!['['] + p.name@ + seq![']', ' ']
    }
}

/// The parameters listed one after the other.
pub open spec fn params_text(ps: Seq<CommandParam>) -> Seq<char>
    decreases ps.len(),
{
    if ps.len() == 0 {
        seq![]
    } else {
        params_text(ps.drop_last()) + param_text(ps.last())
    }
}

/// A command's full name followed by a space and its parameters.
pub open spec fn heading_text(c: CommandInfo) -> Seq<char> {
    c.qualified_name@ + seq![' '] + params_text(c.parameters@)
}

/// A command's description, or a note that it has none.
pub open spec fn description_text(c: CommandInfo) -> Seq<char> {
    match c.description {
        Some(d) => d@,
        None => "No description provided"@,
    }
}

/// The entry of a command in the list of all commands: its heading in bold,
/// then its description on the next line.
pub open spec fn listing_entry(c: CommandInfo) -> Seq<char> {
    seq!['*', '*'] + heading_text(c) + seq!['*', '*', '\n'] + description_text(c)
}

/// The entries of the commands with a blank line between each two.
pub open spec fn listing_text(cs: Seq<CommandInfo>) -> Seq<char>
    decreases cs.len(),
{
    if cs.len() == 0 {
        seq![]
    } else if cs.len() == 1 {
        listing_entry(cs[0])
    } else {
        listing_text(cs.drop_last()) + seq!['\n', '\n'] + listing_entry(cs.last())
    }
}

/// The card that the help command shows: for no query, the title is the
/// bot's name followed by ` Help` and the body lists every command; for a
/// query that names a command, the heading and the description of that
/// command, where the query's first word names a top-level command (by
/// exact name or alias) and each following word one of the subcommands of
/// the command named so far, as deep as the words lead (so `stats all`
/// gives the card of the subcommand `all`); `None` when the first word
/// names no command.
pub open spec fn help_card(
    commands: Seq<CommandInfo>,
    query: Option<Seq<char>>,
    bot_name: Seq<char>,
) -> Option<(Seq<char>, Seq<char>)> {
    match query {
        None => Some((bot_name + " Help"@, listing_text(commands))),
        Some(q) => match command_lookup(commands, q, false) {
            None => None,
            Some(found) => Some((heading_text(found.0), description_text(found.0))),
        },
    }
}

/// The text of an optional query.
pub open spec fn query_text(query: Option<&str>) -> Option<Seq<char>> {
    match query {
        Some(q) => Some(q@),
        None => None,
    }
}

/// The reply that names a command that does not exist.
pub open spec fn not_found_text(q: Seq<char>) -> Seq<char> {
    "Command "@ + q + " not found"@
}

/// What the help command answers.
pub enum HelpReply {
    /// The query named no command: this message is said.
    NotFound { message: String },
    /// A card with a title and a body.
    Card { title: String, description: String },
}

/// Lists a command's parameters: `<name> ` for each required one and
/// `[name] ` for each optional one.
pub fn format_params(command: &CommandInfo) -> (s: String)
    ensures
        s@ == params_text(command.parameters@),
{
    let ps = &command.parameters;
    let mut s = String::new();
    for i in 0..ps.len()
        invariant
            s@ == params_text(ps@.take(i as int)),
    {
        let p = &ps[i];
        if p.required {
            push_char(&mut s, '<');
            s.append(p.name.as_str());
            push_char(&mut s, '>');
        } else {
            push_char(&mut s, '[');
            s.append(p.name.as_str());
            push_char(&mut s, ']');
        }
        push_char(&mut s, ' ');
        assert(ps@.take(i + 1).drop_last() =~= ps@.take(i as int));
        assert(s@ =~= params_text(ps@.take(i + 1)));
    }
    assert(ps@.take(ps@.len() as int) =~= ps@);
    s
}

fn heading(c: &CommandInfo) -> (s: String)
    ensures
        s@ == heading_text(*c),
{
    let mut s = String::new();
    s.append(c.qualified_name.as_str());
    push_char(&mut s, ' ');
    let params = format_params(c);
    s.append(params.as_str());
    assert(s@ =~= heading_text(*c));
    s
}

fn push_description(out: &mut String, c: &CommandInfo)
    ensures
        final(out)@ == old(out)@ + description_text(*c),
{
    match &c.description {
        Some(d) => out.append(d.as_str()),
        None => out.append("No description provided"),
    }
}

fn listing(commands: &Vec<CommandInfo>) -> (s: String)
    ensures
        s@ == listing_text(commands@),
{
    let mut s = String::new();
    for i in 0..commands.len()
        invariant
            s@ == listing_text(commands@.take(i as int)),
    {
        if i > 0 {
            push_char(&mut s, '\n');
            push_char(&mut s, '\n');
        }
        push_char(&mut s, '*');
        push_char(&mut s, '*');
        let h = heading(&commands[i]);
        s.append(h.as_str());
        push_char(&mut s, '*');
        push_char(&mut s, '*');
        push_char(&mut s, '\n');
        push_description(&mut s, &commands[i]);
        assert(commands@.take(i + 1).drop_last() =~= commands@.take(i as int));
        if i == 0 {
            assert(commands@.take(1) =~= seq![commands@[0]]);
        }
        assert(s@ =~= listing_text(commands@.take(i + 1)));
    }
    assert(commands@.take(commands@.len() as int) =~= commands@);
    s
}

/// The help command: with no query, a card titled with the bot's name
/// that lists every command; with a query, the card of the command that
/// its first word names (descending into subcommands by the words after
/// it), or a message that there is no such command.
pub fn help(commands: &Vec<CommandInfo>, query: Option<&str>, bot_name: &str) -> (r: HelpReply)
    ensures
        r is NotFound <==> help_card(commands@, query_text(query), bot_name@) is None,
        r matches HelpReply::NotFound { message } ==> query is Some && message@ == not_found_text(
            query->0@,
        ),
        r matches HelpReply::Card { title, description } ==> help_card(
            commands@,
            query_text(query),
            bot_name@,
        ) == Some((title@, description@)),
{
    match query {
        None => {
            let mut title = String::from_str(bot_name);
            title.append(" Help");
            let description = listing(commands);
            HelpReply::Card { title, description }
        },
        Some(q) => {
            match find_command(commands, q, false) {
                None => {
                    let mut message = String::from_str("Command ");
                    message.append(q);
                    message.append(" not found");
                    HelpReply::NotFound { message }
                },
                Some(found) => {
                    let title = heading(found.0);
                    let mut description = String::new();
                    push_description(&mut description, found.0);
                    HelpReply::Card { title, description }
                },
            }
        },
    }
}

} // verus!
