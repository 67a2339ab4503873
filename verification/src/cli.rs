//! Command-line arguments.
use vstd::prelude::*;

use crate::text;
use crate::text::{append_chars, chars_eq, chars_of, string_of};

verus! {

/// The help text that names every command.
pub const USAGE: &'static str = "Usage: blippy [COMMAND]\n\nCommands:\n  sync         Scan local repos and cache GitHub remotes\n  auth reset   Remove the stored auth token\n  cache reset  Remove the local cache\n  -h, --help   Show this help\n  -V, --version\n               Show version information";

/// A command given on the command line.
#[derive(Debug, Clone, Copy, PartialEq, Eq, Structural)]
pub enum CliCommand {
    AuthReset,
    CacheReset,
    Help,
    Sync,
    Version,
}

/// Arguments that name no command.
#[derive(Debug, Clone, PartialEq, Eq)]
pub struct CliError {
    pub message: String,
}

impl CliError {
    /// The error's text.
    pub fn message(&self) -> (r: String)
        ensures
            r@ == self.message@,
    {
        self.message.clone()
    }
}

/// The command the words after the program name select; none for no words.
pub open spec fn command_of(words: Seq<Seq<char>>) -> Option<Option<CliCommand>> {
    if words.len() == 0 {
        Some(None)
    } else if words == seq!["--version"@] || words == seq!["-V"@] {
        Some(Some(CliCommand::Version))
    } else if words == seq!["--help"@] || words == seq!["-h"@] || words == seq!["help"@] {
        Some(Some(CliCommand::Help))
    } else if words == seq!["auth"@, "reset"@] {
        Some(Some(CliCommand::AuthReset))
    } else if words == seq!["cache"@, "reset"@] {
        Some(Some(CliCommand::CacheReset))
    } else if words == seq!["sync"@] {
        Some(Some(CliCommand::Sync))
    } else {
        None
    }
}

/// The message for words that select no command.
pub open spec fn unknown_message(words: Seq<Seq<char>>) -> Seq<char> {
    "Unknown command: "@ + text::join(words, ' ') + "\n\n"@ + USAGE@
}

/// The arguments after the program name.
pub open spec fn command_words(args: Seq<String>) -> Seq<Seq<char>> {
    if args.len() == 0 {
        Seq::<Seq<char>>::empty()
    } else {
        text::string_views(args).skip(1)
    }
}

/// The word list is exactly the given words.
fn words_are(words: &Vec<Vec<char>>, expected: &[&str]) -> (r: bool)
    ensures
        r == (text::views(words@) == expected@.map_values(|e: &str| e@)),
{
    if words.len() != expected.len() {
        assert(text::views(words@).len() != expected@.map_values(|e: &str| e@).len());
        return false;
    }
    let mut i: usize = 0;
    while i < words.len()
        invariant
            i <= words.len(),
            words.len() == expected.len(),
            forall|j: int| 0 <= j < i ==> words@[j]@ == expected@[j]@,
        decreases words.len() - i,
    {
        let e = chars_of(expected[i]);
        if !chars_eq(words[i].as_slice(), e.as_slice()) {
            assert(text::views(words@)[i as int] != expected@.map_values(|e: &str| e@)[i as int]);
            return false;
        }
        i = i + 1;
    }
    assert(text::views(words@) =~= expected@.map_values(|e: &str| e@));
    true
}

/// Reads the command from the program's arguments (the first is the program
/// name): none, `--version`/`-V`, `--help`/`-h`/`help`, `auth reset`,
/// `cache reset` or `sync`. Anything else is an error that names the words
/// given and shows the usage text.
pub fn parse_args(args: &[String]) -> (r: Result<Option<CliCommand>, CliError>)
    ensures
        match command_of(command_words(args@)) {
            Some(c) => r == Ok::<Option<CliCommand>, CliError>(c),
            None => r matches Err(e) && e.message@ == unknown_message(command_words(args@)),
        },
{
    let ghost cw = command_words(args@);
    let mut words: Vec<Vec<char>> = Vec::new();
    let start: usize = if args.len() > 0 { 1 } else { 0 };
    let mut i: usize = start;
    assert(text::views(words@) =~= text::string_views(args@).subrange(start as int, i as int));
    while i < args.len()
        invariant
            start <= i <= args.len(),
            start == if args.len() > 0 { 1usize } else { 0usize },
            text::views(words@) == text::string_views(args@).subrange(start as int, i as int),
        decreases args.len() - i,
    {
        let ghost before = words@;
        let w = chars_of(args[i].as_str());
        assert(w@ == args@[i as int]@);
        words.push(w);
        assert(text::views(words@) =~= text::views(before).push(args@[i as int]@));
        i = i + 1;
        assert(text::views(words@) =~= text::string_views(args@).subrange(start as int, i as int));
    }
    assert(text::views(words@) =~= cw);
    proof {
        lemma_literal_lists();
    }
    if words.len() == 0 {
        return Ok(None);
    }
    if words_are(&words, &["--version"]) || words_are(&words, &["-V"]) {
        return Ok(Some(CliCommand::Version));
    }
    if words_are(&words, &["--help"]) || words_are(&words, &["-h"]) || words_are(&words, &["help"]) {
        return Ok(Some(CliCommand::Help));
    }
    if words_are(&words, &["auth", "reset"]) {
        return Ok(Some(CliCommand::AuthReset));
    }
    if words_are(&words, &["cache", "reset"]) {
        return Ok(Some(CliCommand::CacheReset));
    }
    if words_are(&words, &["sync"]) {
        return Ok(Some(CliCommand::Sync));
    }
    let mut message = chars_of("Unknown command: ");
    let mut k: usize = 0;
    while k < words.len()
        invariant
            k <= words.len(),
            text::views(words@) == cw,
            message@ == "Unknown command: "@ + text::join(cw.take(k as int), ' '),
        decreases words.len() - k,
    {
        if k > 0 {
            message.push(' ');
        }
        let ghost before = message@;
        append_chars(&mut message, words[k].as_slice());
        k = k + 1;
        assert(cw.take(k as int).drop_last() =~= cw.take(k - 1));
        assert(words@[k - 1]@ == cw[k - 1]);
        assert(message@ =~= "Unknown command: "@ + text::join(cw.take(k as int), ' '));
    }
    assert(cw.take(k as int) =~= cw);
    let tail = chars_of("\n\n");
    append_chars(&mut message, tail.as_slice());
    let usage = chars_of(USAGE);
    append_chars(&mut message, usage.as_slice());
    assert(message@ =~= unknown_message(cw));
    Err(CliError { message: string_of(message.as_slice()) })
}

/// The literal lists the parser compares against, as sequences.
proof fn lemma_literal_lists()
    ensures
        ["--version"]@.map_values(|e: &str| e@) == seq!["--version"@],
        ["-V"]@.map_values(|e: &str| e@) == seq!["-V"@],
        ["--help"]@.map_values(|e: &str| e@) == seq!["--help"@],
        ["-h"]@.map_values(|e: &str| e@) == seq!["-h"@],
        ["help"]@.map_values(|e: &str| e@) == seq!["help"@],
        ["auth", "reset"]@.map_values(|e: &str| e@) == seq!["auth"@, "reset"@],
        ["cache", "reset"]@.map_values(|e: &str| e@) == seq!["cache"@, "reset"@],
        ["sync"]@.map_values(|e: &str| e@) == seq!["sync"@],
{
    assert(["--version"]@.map_values(|e: &str| e@) =~= seq!["--version"@]);
    assert(["-V"]@.map_values(|e: &str| e@) =~= seq!["-V"@]);
    assert(["--help"]@.map_values(|e: &str| e@) =~= seq!["--help"@]);
    assert(["-h"]@.map_values(|e: &str| e@) =~= seq!["-h"@]);
    assert(["help"]@.map_values(|e: &str| e@) =~= seq!["help"@]);
    assert(["auth", "reset"]@.map_values(|e: &str| e@) =~= seq!["auth"@, "reset"@]);
    assert(["cache", "reset"]@.map_values(|e: &str| e@) =~= seq!["cache"@, "reset"@]);
    assert(["sync"]@.map_values(|e: &str| e@) =~= seq!["sync"@]);
}

} // verus!
