//! Command lines for a shell: quoting of single words, the line made of
//! them, and how a POSIX shell reads such a line back.
//!
//! The quoting itself is done by the `shell-escape` crate. What this module
//! states of it is believed, not proved. How a shell reads a line is a
//! model, `sh_cuts`; what is proved of the quoting is proved against it.

use vstd::prelude::*;
use vstd::string::*;
use std::borrow::Cow;
use crate::text::str_eq;

verus! {

/// The shell whose rules a word is quoted by.
#[derive(Clone, Copy, Debug)]
pub enum Dialect {
    /// A POSIX shell.
    Unix,
    /// The Windows command line.
    Windows,
}

/// A character that a POSIX shell reads as itself: an ASCII letter or digit,
/// or one of `-_=/,.+`.
pub open spec fn unix_plain(c: char) -> bool {
    ||| 'a' <= c <= 'z'
    ||| 'A' <= c <= 'Z'
    ||| '0' <= c <= '9'
    ||| c == '-'
    ||| c == '_'
    ||| c == '='
    ||| c == '/'
    ||| c == ','
    ||| c == '.'
    ||| c == '+'
}

/// One character as it stands inside single quotes. A single quote and an
/// exclamation mark leave the quotes, stand behind a backslash, and open
/// the quotes again.
pub open spec fn unix_quoted_char(c: char) -> Seq<char> {
    if c == '\'' || c == '!' {
        seq!['\'', '\\', c, '\'']
    } else {
        seq![c]
    }
}

/// What `shell_escape::unix::escape` returns: the word itself where it is
/// not empty and made of plain characters only, else the word in single
/// quotes.
pub open spec fn unix_escaped(word: Seq<char>) -> Seq<char> {
    if word.len() > 0 && (forall|i: int| 0 <= i < word.len() ==> unix_plain(#[trigger] word[i])) {
        word
    } else {
        seq!['\''] + word.map_values(|c: char| unix_quoted_char(c)).flatten() + seq!['\'']
    }
}

/// A character that makes double quotes necessary on the Windows command
/// line: a double quote, a tab, a line feed or a space.
pub open spec fn windows_special(c: char) -> bool {
    c == '"' || c == '\t' || c == '\n' || c == ' '
}

/// `n` backslashes.
pub open spec fn backslashes(n: nat) -> Seq<char> {
    Seq::new(n, |i: int| '\\')
}

/// A word as it stands inside double quotes, read from the left with
/// `slashes` backslashes seen and not yet written. A run of backslashes
/// is written twice over before the closing quote, twice over and once
/// more before a double quote of the word, and as it is before any other
/// character.
pub open spec fn windows_quoted_body(word: Seq<char>, slashes: nat) -> Seq<char>
    decreases word.len(),
{
    if word.len() == 0 {
        backslashes(2 * slashes)
    } else if word[0] == '\\' {
        windows_quoted_body(word.drop_first(), slashes + 1)
    } else if word[0] == '"' {
        backslashes(2 * slashes + 1) + seq!['"'] + windows_quoted_body(word.drop_first(), 0)
    } else {
        backslashes(slashes) + seq![word[0]] + windows_quoted_body(word.drop_first(), 0)
    }
}

/// What `shell_escape::windows::escape` returns: the word itself where it
/// is not empty and holds no special character, else the word in double
/// quotes.
pub open spec fn windows_escaped(word: Seq<char>) -> Seq<char> {
    if word.len() > 0 && (forall|i: int|
        0 <= i < word.len() ==> !windows_special(#[trigger] word[i])) {
        word
    } else {
        seq!['"'] + windows_quoted_body(word, 0) + seq!['"']
    }
}

/// A word quoted for a shell.
pub open spec fn escaped(dialect: Dialect, word: Seq<char>) -> Seq<char> {
    match dialect {
        Dialect::Unix => unix_escaped(word),
        Dialect::Windows => windows_escaped(word),
    }
}

/// Calls `shell_escape::unix::escape`, which hands a word of plain
/// characters back and puts any other in single quotes.
#[verifier::external_body]
fn unix_escape(word: &str) -> (quoted: String)
    ensures
        quoted@ == unix_escaped(word@),
{
    shell_escape::unix::escape(Cow::from(word)).into_owned()
}

/// Calls `shell_escape::windows::escape`, which hands a word without
/// special characters back and puts any other in double quotes, with the
/// backslashes that the quotes call for.
#[verifier::external_body]
fn windows_escape(word: &str) -> (quoted: String)
    ensures
        quoted@ == windows_escaped(word@),
{
    shell_escape::windows::escape(Cow::from(word)).into_owned()
}

/// Quotes one word for a shell.
pub fn escape(dialect: Dialect, word: &str) -> (quoted: String)
    ensures
        quoted@ == escaped(dialect, word@),
{
    match dialect {
        Dialect::Unix => unix_escape(word),
        Dialect::Windows => windows_escape(word),
    }
}

/// The token that stands for the item.
pub open spec fn placeholder() -> Seq<char> {
    seq!['.']
}

/// The token that a shell line keeps as it is, so that a template can hold
/// a pipeline.
pub open spec fn pipe() -> Seq<char> {
    seq!['|']
}

/// Whether `token` is the placeholder.
pub fn is_placeholder(token: &str) -> (b: bool)
    ensures
        b == (token@ == placeholder()),
{
    proof {
        reveal_strlit(".");
        assert("."@ =~= placeholder());
    }
    str_eq(token, ".")
}

/// Whether `token` is the pipe.
pub fn is_pipe(token: &str) -> (b: bool)
    ensures
        b == (token@ == pipe()),
{
    proof {
        reveal_strlit("|");
        assert("|"@ =~= pipe());
    }
    str_eq(token, "|")
}

/// One token of a template as a word of a shell line: the item, quoted, for
/// the placeholder; the pipe as it is; any other token quoted.
pub open spec fn shell_word(dialect: Dialect, item: Seq<char>, token: Seq<char>) -> Seq<char> {
    if token == placeholder() {
        escaped(dialect, item)
    } else if token == pipe() {
        pipe()
    } else {
        escaped(dialect, token)
    }
}

/// The words that the arguments of a template give for one item. Where no
/// argument is the placeholder, the item, quoted, is one more word at the
/// end.
pub open spec fn shell_words(dialect: Dialect, item: Seq<char>, args: Seq<Seq<char>>) -> Seq<
    Seq<char>,
> {
    let words = args.map_values(|token: Seq<char>| shell_word(dialect, item, token));
    if args.contains(placeholder()) {
        words
    } else {
        words.push(escaped(dialect, item))
    }
}

/// Words on one line, with single spaces between.
pub open spec fn joined(words: Seq<Seq<char>>) -> Seq<char>
    decreases words.len(),
{
    if words.len() == 0 {
        Seq::empty()
    } else if words.len() == 1 {
        words[0]
    } else {
        joined(words.drop_last()) + seq![' '] + words.last()
    }
}

/// The shell line for one item: the name of the program, always quoted,
/// then the words of its arguments. The program is no token of the
/// template: it is neither the placeholder nor the pipe, whatever its
/// name.
pub open spec fn shell_line(
    dialect: Dialect,
    item: Seq<char>,
    program: Seq<char>,
    args: Seq<Seq<char>>,
) -> Seq<char> {
    joined(seq![escaped(dialect, program)] + shell_words(dialect, item, args))
}

/// A sequence with one more element holds `x` if it held it before or the
/// new element is `x`.
pub proof fn lemma_contains_push<A>(head: Seq<A>, last: A, x: A)
    ensures
        head.push(last).contains(x) <==> head.contains(x) || last == x,
{
    let grown = head.push(last);
    if head.contains(x) {
        let j = choose|j: int| 0 <= j < head.len() && #[trigger] head[j] == x;
        assert(grown[j] == x);
    }
    if last == x {
        assert(grown[head.len() as int] == x);
    }
}

fn word_for(dialect: Dialect, item: &str, token: &str) -> (word: String)
    ensures
        word@ == shell_word(dialect, item@, token@),
{
    if is_placeholder(token) {
        escape(dialect, item)
    } else if is_pipe(token) {
        proof {
            reveal_strlit("|");
        }
        String::from_str("|")
    } else {
        escape(dialect, token)
    }
}

/// Writes the shell line that runs `prog` with `args` on `item`.
pub fn command_text(dialect: Dialect, item: &str, prog: &str, args: &[&str]) -> (line: String)
    ensures
        line@ == shell_line(dialect, item@, prog@, args.deep_view()),
{
    let ghost tokens = args.deep_view();
    let ghost first = seq![escaped(dialect, prog@)];
    let ghost words = tokens.map_values(|token: Seq<char>| shell_word(dialect, item@, token));
    let mut line = escape(dialect, prog);
    let mut subbed = false;
    let mut i: usize = 0;
    while i < args.len()
        invariant
            i <= args.len(),
            tokens == args.deep_view(),
            first == seq![escaped(dialect, prog@)],
            words == tokens.map_values(|token: Seq<char>| shell_word(dialect, item@, token)),
            line@ == joined(first + words.take(i as int)),
            subbed == tokens.take(i as int).contains(placeholder()),
        decreases args.len() - i,
    {
        let token = args[i];
        proof {
            reveal_strlit(" ");
            lemma_contains_push(tokens.take(i as int), token@, placeholder());
            assert(tokens.take(i + 1) =~= tokens.take(i as int).push(token@));
            assert((first + words.take(i + 1)).drop_last() =~= first + words.take(i as int));
        }
        let word = word_for(dialect, item, token);
        line.append(" ");
        line.append(word.as_str());
        if is_placeholder(token) {
            subbed = true;
        }
        i += 1;
    }
    assert(tokens.take(i as int) =~= tokens);
    assert(words.take(i as int) =~= words);
    if !subbed {
        proof {
            reveal_strlit(" ");
            assert((first + words.push(escaped(dialect, item@))).drop_last() =~= first + words);
        }
        let word = escape(dialect, item);
        line.append(" ");
        line.append(word.as_str());
    }
    line
}

/// The pipe is never quoted: an argument of the template that is the pipe
/// is a word of the shell line as it stands, whatever the item and the
/// dialect.
pub proof fn lemma_pipe_stays(
    dialect: Dialect,
    item: Seq<char>,
    args: Seq<Seq<char>>,
    i: int,
)
    requires
        0 <= i < args.len(),
        args[i] == pipe(),
    ensures
        shell_words(dialect, item, args)[i] == pipe(),
{
    assert(pipe()[0] != placeholder()[0]);
}

/// The words of a line with the characters of `front` put before its first
/// word, which is the word that was being read when the line began.
pub open spec fn continued(front: Seq<char>, rest: Option<Seq<Seq<char>>>) -> Option<
    Seq<Seq<char>>,
> {
    match rest {
        Some(words) => if words.len() > 0 {
            Some(seq![front + words[0]] + words.drop_first())
        } else {
            None
        },
        None => None,
    }
}

/// The words that a POSIX shell cuts `text` into, read from inside single
/// quotes (`quoted`) or from outside them; the first of them is the word
/// that is being read where `text` begins.
///
/// Inside quotes a single quote ends the quotes and any other character
/// stands for itself. Outside, a single quote opens quotes, a backslash
/// makes the next character stand for itself, a plain character stands for
/// itself, and a single space ends the word. `None` for a text that this
/// model does not cover: one that holds anything else outside quotes (an
/// operator such as `|` among them), a backslash before a line feed or at
/// the end, a space at the end or before another space, or quotes that are
/// not closed.
pub open spec fn sh_cuts(text: Seq<char>, quoted: bool) -> Option<Seq<Seq<char>>>
    decreases text.len(),
{
    if text.len() == 0 {
        if quoted {
            None
        } else {
            Some(seq![Seq::empty()])
        }
    } else if quoted {
        if text[0] == '\'' {
            sh_cuts(text.drop_first(), false)
        } else {
            continued(seq![text[0]], sh_cuts(text.drop_first(), true))
        }
    } else if text[0] == '\'' {
        sh_cuts(text.drop_first(), true)
    } else if text[0] == '\\' {
        if text.len() == 1 || text[1] == '\n' {
            None
        } else {
            continued(seq![text[1]], sh_cuts(text.skip(2), false))
        }
    } else if text[0] == ' ' {
        if text.len() == 1 || text[1] == ' ' {
            None
        } else {
            match sh_cuts(text.drop_first(), false) {
                Some(words) => Some(seq![Seq::empty()] + words),
                None => None,
            }
        }
    } else if unix_plain(text[0]) {
        continued(seq![text[0]], sh_cuts(text.drop_first(), false))
    } else {
        None
    }
}

/// The words that a POSIX shell reads from a line, under the model of
/// `sh_cuts`. A line that is empty or begins with a space is not covered.
pub open spec fn sh_words(line: Seq<char>) -> Option<Seq<Seq<char>>> {
    if line.len() == 0 || line[0] == ' ' {
        None
    } else {
        sh_cuts(line, false)
    }
}

/// The inside of the quotes that `unix_escaped` puts around a word.
spec fn quoted_body(word: Seq<char>) -> Seq<char> {
    word.map_values(|c: char| unix_quoted_char(c)).flatten()
}

proof fn lemma_quoted_body_step(word: Seq<char>)
    requires
        word.len() > 0,
    ensures
        quoted_body(word) == unix_quoted_char(word[0]) + quoted_body(word.drop_first()),
{
    let each = |c: char| unix_quoted_char(c);
    assert(word.map_values(each).drop_first() =~= word.drop_first().map_values(each));
}

proof fn lemma_cuts_some_word(text: Seq<char>, quoted: bool)
    ensures
        sh_cuts(text, quoted) matches Some(words) ==> words.len() > 0,
    decreases text.len(),
{
    if text.len() > 0 {
        lemma_cuts_some_word(text.drop_first(), true);
        lemma_cuts_some_word(text.drop_first(), false);
        if text.len() > 1 {
            lemma_cuts_some_word(text.skip(2), false);
        }
    }
}

proof fn lemma_continued_twice(a: Seq<char>, b: Seq<char>, rest: Option<Seq<Seq<char>>>)
    ensures
        continued(a, continued(b, rest)) == continued(a + b, rest),
{
    if let Some(words) = rest {
        if words.len() > 0 {
            assert(a + (b + words[0]) =~= (a + b) + words[0]);
        }
    }
}

/// Plain characters in front of a text are read as they stand.
proof fn lemma_plain_is_read(word: Seq<char>, tail: Seq<char>)
    requires
        forall|i: int| 0 <= i < word.len() ==> unix_plain(#[trigger] word[i]),
    ensures
        sh_cuts(word + tail, false) == continued(word, sh_cuts(tail, false)),
    decreases word.len(),
{
    if word.len() == 0 {
        lemma_cuts_some_word(tail, false);
        assert(word + tail =~= tail);
    } else {
        let rest = word.drop_first();
        assert forall|i: int| 0 <= i < rest.len() implies unix_plain(#[trigger] rest[i]) by {
            assert(rest[i] == word[i + 1]);
        }
        lemma_plain_is_read(rest, tail);
        assert((word + tail).drop_first() =~= rest + tail);
        lemma_continued_twice(seq![word[0]], rest, sh_cuts(tail, false));
        assert(seq![word[0]] + rest =~= word);
    }
}

/// The inside of the quotes, read from inside quotes up to the closing
/// quote, gives the word.
proof fn lemma_quoted_is_read(word: Seq<char>, tail: Seq<char>)
    ensures
        sh_cuts(quoted_body(word) + seq!['\''] + tail, true) == continued(
            word,
            sh_cuts(tail, false),
        ),
    decreases word.len(),
{
    let after = sh_cuts(tail, false);
    let text = quoted_body(word) + seq!['\''] + tail;
    if word.len() == 0 {
        lemma_cuts_some_word(tail, false);
        assert(text.drop_first() =~= tail);
    } else {
        let c = word[0];
        let rest = word.drop_first();
        let next = quoted_body(rest) + seq!['\''] + tail;
        lemma_quoted_body_step(word);
        lemma_quoted_is_read(rest, tail);
        lemma_continued_twice(seq![c], rest, after);
        assert(seq![c] + rest =~= word);
        if c == '\'' || c == '!' {
            let t1 = seq!['\\', c, '\''] + next;
            let t3 = seq!['\''] + next;
            assert(text.drop_first() =~= t1);
            assert(t1.skip(2) =~= t3);
            assert(t3.drop_first() =~= next);
            assert(sh_cuts(t1, false) == continued(seq![c], sh_cuts(t3, false)));
        } else {
            assert(text.drop_first() =~= next);
        }
    }
}

/// A quoted word in front of a text is read as the word, and is never
/// empty nor begins with a space.
proof fn lemma_escaped_is_read(word: Seq<char>, tail: Seq<char>)
    ensures
        sh_cuts(unix_escaped(word) + tail, false) == continued(word, sh_cuts(tail, false)),
        unix_escaped(word).len() > 0,
        unix_escaped(word)[0] != ' ',
{
    if word.len() > 0 && (forall|i: int| 0 <= i < word.len() ==> unix_plain(#[trigger] word[i])) {
        lemma_plain_is_read(word, tail);
    } else {
        let inner = quoted_body(word) + seq!['\''] + tail;
        lemma_quoted_is_read(word, tail);
        assert((unix_escaped(word) + tail).drop_first() =~= inner);
    }
}

/// Whatever a word holds, what `unix_escaped` makes of it is read back as
/// that one word, whole and unchanged, under the model of `sh_words`.
pub proof fn lemma_unix_escaped_reads_back(word: Seq<char>)
    ensures
        sh_words(unix_escaped(word)) == Some(seq![word]),
{
    lemma_escaped_is_read(word, Seq::empty());
}

proof fn lemma_joined_front(first: Seq<char>, rest: Seq<Seq<char>>)
    requires
        rest.len() > 0,
    ensures
        joined(seq![first] + rest) == first + seq![' '] + joined(rest),
    decreases rest.len(),
{
    let all = seq![first] + rest;
    assert(all.drop_last() =~= seq![first] + rest.drop_last());
    if rest.len() > 1 {
        lemma_joined_front(first, rest.drop_last());
        assert(joined(all) == joined(all.drop_last()) + seq![' '] + all.last());
    }
}

/// Words that are quoted one by one and joined with single spaces are read
/// back by the shell as those words, as many and unchanged, under the model
/// of `sh_words`.
pub proof fn lemma_joined_reads_back(words: Seq<Seq<char>>)
    requires
        words.len() > 0,
    ensures
        sh_words(joined(words.map_values(|w: Seq<char>| unix_escaped(w)))) == Some(words),
    decreases words.len(),
{
    let quote = |w: Seq<char>| unix_escaped(w);
    let quoted = words.map_values(quote);
    let line = joined(quoted);
    let first = words[0];
    if words.len() == 1 {
        lemma_unix_escaped_reads_back(first);
    } else {
        let rest = words.drop_first();
        let rest_line = joined(rest.map_values(quote));
        lemma_joined_reads_back(rest);
        assert(quoted =~= seq![unix_escaped(first)] + rest.map_values(quote));
        lemma_joined_front(unix_escaped(first), rest.map_values(quote));
        let tail = seq![' '] + rest_line;
        lemma_escaped_is_read(first, tail);
        assert(line =~= unix_escaped(first) + tail);
        assert(tail.drop_first() =~= rest_line);
    }
}

} // verus!
