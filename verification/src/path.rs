//! Paths as texts: file names made safe, `$NAME` and `${NAME}` filled in from the
//! environment, and a leading `~` turned into the home directory.

use vstd::prelude::*;
use vstd::string::StringExecFns;
use crate::host::{optional, Host, HostView};
use crate::text::{
    alphanumeric, chars_of, copy_of, first_where, is_alphanumeric, lemma_first_where,
    lemma_first_where_is, lowercase_of, pairs, push_char, same_text, text_of, texts,
    to_lowercase,
};

verus! {

/// The characters of a text that carries a mark on each character. The mark is
/// what a table of characters says of the character: the text is marked once, and
/// what is done with it does not ask the table again.
pub open spec fn letters(marked: Seq<(char, bool)>) -> Seq<char> {
    Seq::new(marked.len(), |i: int| marked[i].0)
}

/// The characters that a sanitized file name keeps: letters, numbers and the dot.
pub open spec fn kept_in_names(c: char) -> bool {
    alphanumeric(c) || c == '.'
}

/// `kept_in_names` as a predicate.
pub open spec fn kept() -> spec_fn(char) -> bool {
    |c: char| kept_in_names(c)
}

/// A text with the mark of a letter or number on each character that is one.
pub open spec fn marked_alphanumeric(text: Seq<char>) -> Seq<(char, bool)> {
    Seq::new(text.len(), |i: int| (text[i], alphanumeric(text[i])))
}

/// The characters of a marked text that a file name keeps, in their order: those
/// that carry the mark, and the dots.
pub open spec fn kept_of(marked: Seq<(char, bool)>) -> Seq<char>
    decreases marked.len(),
{
    if marked.len() == 0 {
        Seq::empty()
    } else {
        let before = kept_of(marked.drop_last());
        if marked.last().1 || marked.last().0 == '.' {
            before.push(marked.last().0)
        } else {
            before
        }
    }
}

/// One pass from the left that turns every pair of dots into a single dot.
pub open spec fn collapse_dots(text: Seq<char>) -> Seq<char>
    decreases text.len(),
{
    if text.len() < 2 {
        text
    } else if text[0] == '.' && text[1] == '.' {
        seq!['.'] + collapse_dots(text.skip(2))
    } else {
        seq![text[0]] + collapse_dots(text.skip(1))
    }
}

/// The file name that a lowercased text with its letters and numbers marked gives:
/// what is kept of it, its pairs of dots collapsed.
pub open spec fn sanitized_of(lowered: Seq<(char, bool)>) -> Seq<char> {
    collapse_dots(kept_of(lowered))
}

/// A file name made safe: lowercased, stripped of everything but letters, numbers and
/// dots, its pairs of dots collapsed.
pub open spec fn sanitized(name: Seq<char>) -> Seq<char> {
    sanitized_of(marked_alphanumeric(lowercase_of(name)))
}

/// Turns every pair of dots into a single dot, in one pass from the left.
pub fn collapse(kept: &Vec<char>) -> (clean: String)
    ensures
        clean@ == collapse_dots(kept@),
{
    let mut clean = String::new();
    let mut at: usize = 0;
    assert(kept@.skip(0) == kept@);
    assert(clean@ + collapse_dots(kept@) == collapse_dots(kept@));
    while at < kept.len()
        invariant
            at <= kept.len(),
            clean@ + collapse_dots(kept@.skip(at as int)) == collapse_dots(kept@),
        decreases kept.len() - at,
    {
        let ghost rest = kept@.skip(at as int);
        if at + 1 < kept.len() && kept[at] == '.' && kept[at + 1] == '.' {
            assert(rest.skip(2) == kept@.skip(at + 2));
            push_char(&mut clean, '.');
            at += 2;
        } else {
            assert(rest.skip(1) == kept@.skip(at + 1));
            push_char(&mut clean, kept[at]);
            at += 1;
        }
    }
    assert(clean@ + collapse_dots(kept@.skip(at as int)) == clean@);
    clean
}

/// Makes a file name of a lowercased text whose letters and numbers are marked.
pub fn sanitize_marked(lowered: &Vec<(char, bool)>) -> (clean: String)
    ensures
        clean@ == sanitized_of(lowered@),
{
    let mut kept_chars: Vec<char> = Vec::new();
    let mut at: usize = 0;
    while at < lowered.len()
        invariant
            at <= lowered.len(),
            kept_chars@ == kept_of(lowered@.take(at as int)),
        decreases lowered.len() - at,
    {
        assert(lowered@.take(at + 1).drop_last() == lowered@.take(at as int));
        let (c, marked) = lowered[at];
        if marked || c == '.' {
            kept_chars.push(c);
        }
        at += 1;
    }
    assert(lowered@.take(at as int) == lowered@);
    collapse(&kept_chars)
}

/// Makes a file name safe to use as part of a path.
pub fn sanitize_file_name(file_name: &str) -> (clean: String)
    ensures
        clean@ == sanitized(file_name@),
{
    let lowered = to_lowercase(file_name);
    let chars = chars_of(lowered.as_str());
    let mut marked: Vec<(char, bool)> = Vec::new();
    let mut at: usize = 0;
    while at < chars.len()
        invariant
            at <= chars.len(),
            marked@ == marked_alphanumeric(chars@.take(at as int)),
        decreases chars.len() - at,
    {
        let c = chars[at];
        marked.push((c, is_alphanumeric(c)));
        assert(marked@ == marked_alphanumeric(chars@.take(at + 1)));
        at += 1;
    }
    assert(chars@.take(at as int) == chars@);
    sanitize_marked(&marked)
}

/// What holds of every character that a marked text keeps holds of every character
/// of the file name made of it.
pub proof fn lemma_sanitized_of_keeps(lowered: Seq<(char, bool)>, good: spec_fn(char) -> bool)
    requires
        forall|i: int|
            0 <= i < lowered.len() && (lowered[i].1 || lowered[i].0 == '.') ==> good(
                #[trigger] lowered[i].0,
            ),
    ensures
        forall|i: int|
            0 <= i < sanitized_of(lowered).len() ==> good(#[trigger] sanitized_of(lowered)[i]),
{
    lemma_kept_of_keeps(lowered, good);
    lemma_collapse_keeps(kept_of(lowered), good);
}

/// A sanitized file name holds nothing but letters, numbers and dots, and no
/// character that the lowercased name does not hold.
pub proof fn lemma_sanitized_is_clean(name: Seq<char>)
    ensures
        forall|i: int|
            0 <= i < sanitized(name).len() ==> kept_in_names(#[trigger] sanitized(name)[i]),
        forall|i: int|
            0 <= i < sanitized(name).len() ==> lowercase_of(name).contains(
                #[trigger] sanitized(name)[i],
            ),
{
    let lowered = lowercase_of(name);
    let marked = marked_alphanumeric(lowered);
    let from_lowered = |c: char| lowered.contains(c);
    assert forall|i: int| 0 <= i < marked.len() implies from_lowered(#[trigger] marked[i].0) by {
        assert(marked[i].0 == lowered[i]);
    }
    lemma_sanitized_of_keeps(marked, kept());
    lemma_sanitized_of_keeps(marked, from_lowered);
    assert forall|i: int| 0 <= i < sanitized(name).len() implies kept_in_names(
        #[trigger] sanitized(name)[i],
    ) && lowered.contains(sanitized(name)[i]) by {
        assert(kept()(sanitized_of(marked)[i]));
        assert(from_lowered(sanitized_of(marked)[i]));
    }
}

/// What holds of every character that is kept holds of every character of what is
/// kept.
proof fn lemma_kept_of_keeps(marked: Seq<(char, bool)>, good: spec_fn(char) -> bool)
    requires
        forall|i: int|
            0 <= i < marked.len() && (marked[i].1 || marked[i].0 == '.') ==> good(
                #[trigger] marked[i].0,
            ),
    ensures
        forall|i: int| 0 <= i < kept_of(marked).len() ==> good(#[trigger] kept_of(marked)[i]),
    decreases marked.len(),
{
    if marked.len() > 0 {
        let before = marked.drop_last();
        assert forall|i: int| 0 <= i < before.len() && (before[i].1 || before[i].0
            == '.') implies good(#[trigger] before[i].0) by {
            assert(before[i] == marked[i]);
        }
        lemma_kept_of_keeps(before, good);
        let last = marked[marked.len() - 1];
        assert forall|i: int| 0 <= i < kept_of(marked).len() implies good(
            #[trigger] kept_of(marked)[i],
        ) by {
            if i < kept_of(before).len() {
                assert(kept_of(marked)[i] == kept_of(before)[i]);
            } else {
                assert(last.1 || last.0 == '.');
                assert(good(marked[marked.len() - 1].0));
                assert(kept_of(marked)[i] == last.0);
            }
        }
    }
}

/// Collapsing dots brings in no character that was not there: what holds of every
/// character of a text holds of every character of the collapsed text.
proof fn lemma_collapse_keeps(text: Seq<char>, good: spec_fn(char) -> bool)
    requires
        forall|i: int| 0 <= i < text.len() ==> good(#[trigger] text[i]),
    ensures
        forall|i: int|
            0 <= i < collapse_dots(text).len() ==> good(#[trigger] collapse_dots(text)[i]),
    decreases text.len(),
{
    if text.len() >= 2 {
        let rest = if text[0] == '.' && text[1] == '.' {
            text.skip(2)
        } else {
            text.skip(1)
        };
        assert forall|i: int| 0 <= i < rest.len() implies good(#[trigger] rest[i]) by {
            assert(rest[i] == text[i + (text.len() - rest.len())]);
        }
        lemma_collapse_keeps(rest, good);
        assert forall|i: int| 0 <= i < collapse_dots(text).len() implies good(
            #[trigger] collapse_dots(text)[i],
        ) by {
            if i > 0 {
                assert(collapse_dots(text)[i] == collapse_dots(rest)[i - 1]);
            } else {
                assert(collapse_dots(text)[0] == text[0]);
            }
        }
    }
}

/// The error of `regex::Regex::new`, which is handed on and never looked into.
#[verifier::external_type_specification]
#[verifier::external_body]
pub struct ExPatternError(regex::Error);

/// Whether the `regex` crate finds a match of a pattern in a text; nothing where it
/// does not take the pattern.
pub uninterp spec fn pattern_match(pattern: Seq<char>, text: Seq<char>) -> Option<bool>;

/// `regex::Regex::is_match` of the pattern that `regex::Regex::new` compiles. Nothing
/// is claimed of the answer but that it depends on the pattern and the text alone.
#[verifier::external_body]
fn is_match(pattern: &str, text: &str) -> (answer: Result<bool, regex::Error>)
    ensures
        answer is Ok <==> pattern_match(pattern@, text@) is Some,
        answer matches Ok(found) ==> pattern_match(pattern@, text@) == Some(found),
{
    Ok(regex::Regex::new(pattern)?.is_match(text))
}

/// The pattern that a text of one word character matches, and no other text.
pub open spec fn word_pattern() -> Seq<char> {
    "^\\w$"@
}

/// The characters that the bare name of a variable is made of: the word characters
/// of the `regex` crate, which are letters, marks, digits, and the underscore and
/// its like.
pub open spec fn name_char(c: char) -> bool {
    pattern_match(word_pattern(), seq![c]) == Some(true)
}

/// Tells whether a character can stand in the bare name of a variable.
pub fn is_name_char(c: char) -> (answer: bool)
    ensures
        answer == name_char(c),
{
    let mut text = String::new();
    push_char(&mut text, c);
    assert(text@ == seq![c]);
    match is_match("^\\w$", text.as_str()) {
        Ok(found) => found,
        Err(_) => false,
    }
}

/// A text with the mark of a name character on each character that is one.
pub open spec fn marked_names(text: Seq<char>) -> Seq<(char, bool)> {
    Seq::new(text.len(), |i: int| (text[i], name_char(text[i])))
}

/// The predicate that holds of every character but those marked.
pub open spec fn unmarked() -> spec_fn((char, bool)) -> bool {
    |marked: (char, bool)| !marked.1
}

/// The predicate that holds of the closing brace.
pub open spec fn closing() -> spec_fn((char, bool)) -> bool {
    |marked: (char, bool)| marked.0 == '}'
}

/// A reference to a variable inside a text: how many characters it takes, dollar sign
/// and braces included, and the name it asks for.
pub struct Token {
    pub length: int,
    pub name: Seq<char>,
}

/// The reference that a text with its name characters marked begins with, if it
/// begins with one: a dollar sign, then either the longest run of name characters,
/// which must not be empty, or an opening brace, anything but a closing brace, and
/// the closing brace.
pub open spec fn token_at(text: Seq<(char, bool)>) -> Option<Token> {
    if text.len() < 2 || text[0].0 != '$' {
        None
    } else if text[1].1 {
        let run = first_where(text.skip(1), unmarked());
        Some(Token { length: 1 + run, name: letters(text.subrange(1, 1 + run)) })
    } else if text[1].0 == '{' {
        let close = first_where(text.skip(2), closing());
        if close < text.len() - 2 {
            Some(Token { length: close + 3, name: letters(text.subrange(2, 2 + close)) })
        } else {
            None
        }
    } else {
        None
    }
}

/// A reference takes at least its dollar sign and one more character, and ends inside
/// the text.
pub proof fn lemma_token_fits(text: Seq<(char, bool)>)
    ensures
        token_at(text) matches Some(token) ==> 2 <= token.length <= text.len(),
{
    if text.len() >= 2 && text[0].0 == '$' {
        lemma_first_where(text.skip(1), unmarked());
        lemma_first_where(text.skip(2), closing());
        if text[1].1 {
            assert(!unmarked()(text.skip(1)[0]));
        }
    }
}

/// The predicate that holds of the entries for `name`.
pub open spec fn named(name: Seq<char>) -> spec_fn((Seq<char>, Seq<char>)) -> bool {
    |entry: (Seq<char>, Seq<char>)| entry.0 == name
}

/// The value that a list of variables gives to `name`: that of the first entry for it.
pub open spec fn value_of(variables: Seq<(Seq<char>, Seq<char>)>, name: Seq<char>) -> Option<
    Seq<char>,
> {
    let at = first_where(variables, named(name));
    if at < variables.len() {
        Some(variables[at].1)
    } else {
        None
    }
}

/// A text with its name characters marked, and its references filled in, from the
/// left: a reference to a variable that has a value gives way to the value, which
/// is not read again; one to a variable without a value stays as it is written; so
/// does everything else.
pub open spec fn expanded_of(
    text: Seq<(char, bool)>,
    variables: Seq<(Seq<char>, Seq<char>)>,
) -> Seq<char>
    decreases text.len(),
{
    if text.len() == 0 {
        Seq::empty()
    } else {
        match token_at(text) {
            Some(token) => {
                proof {
                    lemma_token_fits(text);
                }
                (match value_of(variables, token.name) {
                    Some(value) => value,
                    None => letters(text.take(token.length)),
                }) + expanded_of(text.skip(token.length), variables)
            },
            None => seq![text[0].0] + expanded_of(text.skip(1), variables),
        }
    }
}

/// A text with its references filled in.
pub open spec fn expanded(text: Seq<char>, variables: Seq<(Seq<char>, Seq<char>)>) -> Seq<char> {
    expanded_of(marked_names(text), variables)
}

/// Looks a variable up by its exact name.
pub fn lookup<'a>(variables: &'a Vec<(String, String)>, name: &str) -> (value: Option<&'a String>)
    ensures
        match value {
            Some(text) => value_of(pairs(variables@), name@) == Some(text@),
            None => value_of(pairs(variables@), name@) is None,
        },
{
    let mut at: usize = 0;
    while at < variables.len()
        invariant
            at <= variables.len(),
            forall|i: int| 0 <= i < at ==> !named(name@)(#[trigger] pairs(variables@)[i]),
        decreases variables.len() - at,
    {
        if same_text(variables[at].0.as_str(), name) {
            proof {
                lemma_first_where_is(pairs(variables@), named(name@), at as int);
            }
            return Some(&variables[at].1);
        }
        at += 1;
    }
    proof {
        lemma_first_where_is(pairs(variables@), named(name@), at as int);
    }
    None
}

/// The text made of the characters of `text[from..to]`.
fn letters_of(text: &Vec<(char, bool)>, from: usize, to: usize) -> (found: String)
    requires
        from <= to <= text.len(),
    ensures
        found@ == letters(text@.subrange(from as int, to as int)),
{
    let mut found = String::new();
    let mut at: usize = from;
    while at < to
        invariant
            from <= at <= to <= text.len(),
            found@ == letters(text@.subrange(from as int, at as int)),
        decreases to - at,
    {
        push_char(&mut found, text[at].0);
        assert(found@ == letters(text@.subrange(from as int, at + 1)));
        at += 1;
    }
    found
}

/// Where the reference at `text[at..]` has its name and its end, if there is one.
fn find_token(text: &Vec<(char, bool)>, at: usize) -> (found: Option<(usize, usize, usize)>)
    requires
        at < text.len(),
    ensures
        match found {
            Some((from, to, end)) => at < from <= to <= end <= text.len() && token_at(
                text@.skip(at as int),
            ) == Some(
                Token { length: end - at, name: letters(text@.subrange(from as int, to as int)) },
            ),
            None => token_at(text@.skip(at as int)) is None,
        },
{
    let ghost here = text@.skip(at as int);
    if text.len() - at < 2 || text[at].0 != '$' {
        return None;
    }
    let next = text[at + 1];
    assert(here[1] == next);
    let start: usize = at + 1;
    if next.1 {
        let ghost tail = here.skip(1);
        assert(tail == text@.skip(start as int));
        let mut end: usize = start + 1;
        while end < text.len() && text[end].1
            invariant
                start < end <= text.len(),
                tail == text@.skip(start as int),
                forall|i: int| 0 <= i < end - start ==> !unmarked()(#[trigger] tail[i]),
            decreases text.len() - end,
        {
            end += 1;
        }
        proof {
            lemma_first_where_is(tail, unmarked(), end - start);
            assert(here.subrange(1, 1 + (end - start)) == text@.subrange(
                start as int,
                end as int,
            ));
        }
        Some((start, end, end))
    } else if next.0 == '{' {
        let ghost tail = here.skip(2);
        let open: usize = start + 1;
        assert(tail == text@.skip(open as int));
        let mut close: usize = open;
        while close < text.len() && text[close].0 != '}'
            invariant
                open <= close <= text.len(),
                tail == text@.skip(open as int),
                forall|i: int| 0 <= i < close - open ==> !closing()(#[trigger] tail[i]),
            decreases text.len() - close,
        {
            close += 1;
        }
        proof {
            lemma_first_where_is(tail, closing(), close - open);
            assert(here.subrange(2, 2 + (close - open)) == text@.subrange(
                open as int,
                close as int,
            ));
        }
        if close < text.len() {
            Some((open, close, close + 1))
        } else {
            None
        }
    } else {
        None
    }
}

/// Fills in the references to variables in a text whose name characters are marked.
pub fn expand_marked(text: &Vec<(char, bool)>, variables: &Vec<(String, String)>) -> (out: String)
    ensures
        out@ == expanded_of(text@, pairs(variables@)),
{
    let ghost known = pairs(variables@);
    let mut out = String::new();
    let mut at: usize = 0;
    assert(text@.skip(0) == text@);
    assert(out@ + expanded_of(text@, known) == expanded_of(text@, known));
    while at < text.len()
        invariant
            at <= text.len(),
            known == pairs(variables@),
            out@ + expanded_of(text@.skip(at as int), known) == expanded_of(text@, known),
        decreases text.len() - at,
    {
        let ghost here = text@.skip(at as int);
        let ghost before = out@;
        match find_token(text, at) {
            Some((from, to, end)) => {
                let name = letters_of(text, from, to);
                assert(here.skip(end - at) == text@.skip(end as int));
                assert(here.take(end - at) == text@.subrange(at as int, end as int));
                match lookup(variables, name.as_str()) {
                    Some(value) => {
                        out.append(value.as_str());
                        assert(out@ + expanded_of(text@.skip(end as int), known) == before
                            + expanded_of(here, known));
                    },
                    None => {
                        let verbatim = letters_of(text, at, end);
                        out.append(verbatim.as_str());
                        assert(out@ + expanded_of(text@.skip(end as int), known) == before
                            + expanded_of(here, known));
                    },
                }
                at = end;
            },
            None => {
                assert(here.skip(1) == text@.skip(at + 1));
                push_char(&mut out, text[at].0);
                assert(out@ + expanded_of(text@.skip(at + 1), known) == before + expanded_of(
                    here,
                    known,
                ));
                at += 1;
            },
        }
    }
    assert(out@ + expanded_of(text@.skip(at as int), known) == out@);
    out
}

/// A text without a dollar sign holds no reference: filling in leaves its characters
/// as they are, whatever is marked.
pub proof fn lemma_no_dollar_no_change(
    text: Seq<(char, bool)>,
    variables: Seq<(Seq<char>, Seq<char>)>,
)
    requires
        forall|i: int| 0 <= i < text.len() ==> text[i].0 != '$',
    ensures
        expanded_of(text, variables) == letters(text),
    decreases text.len(),
{
    if text.len() > 0 {
        let rest = text.skip(1);
        assert forall|i: int| 0 <= i < rest.len() implies rest[i].0 != '$' by {
            assert(rest[i] == text[i + 1]);
        }
        lemma_no_dollar_no_change(rest, variables);
        assert(seq![text[0].0] + letters(rest) == letters(text));
    } else {
        assert(letters(text) == Seq::<char>::empty());
    }
}

/// Fills in the references to variables that a path holds.
pub fn expand_vars(path: &str, variables: &Vec<(String, String)>) -> (expanded_path: String)
    ensures
        expanded_path@ == expanded(path@, pairs(variables@)),
{
    let chars = chars_of(path);
    let mut plain: usize = 0;
    while plain < chars.len() && chars[plain] != '$'
        invariant
            plain <= chars.len(),
            forall|i: int| 0 <= i < plain ==> chars@[i] != '$',
        decreases chars.len() - plain,
    {
        plain += 1;
    }
    if plain == chars.len() {
        proof {
            lemma_no_dollar_no_change(marked_names(path@), pairs(variables@));
            assert(letters(marked_names(path@)) == path@);
        }
        return copy_of(path);
    }
    let mut marked: Vec<(char, bool)> = Vec::new();
    let mut at: usize = 0;
    while at < chars.len()
        invariant
            at <= chars.len(),
            marked@ == marked_names(chars@.take(at as int)),
        decreases chars.len() - at,
    {
        let c = chars[at];
        marked.push((c, is_name_char(c)));
        assert(marked@ == marked_names(chars@.take(at + 1)));
        at += 1;
    }
    assert(chars@.take(at as int) == chars@);
    expand_marked(&marked, variables)
}

/// A path with a leading `~` replaced by the home directory; the path itself where it
/// has no leading `~` or no home directory is known.
pub open spec fn without_tilde(path: Seq<char>, home: Option<Seq<char>>) -> Seq<char> {
    match home {
        Some(home) if path.len() > 0 && path[0] == '~' => home + path.skip(1),
        _ => path,
    }
}

/// Replaces a leading `~` by the home directory.
pub fn expand_tilde(path: &str, home: &Option<String>) -> (expanded_path: String)
    ensures
        expanded_path@ == without_tilde(path@, optional(*home)),
{
    let chars = chars_of(path);
    match home {
        Some(home) if chars.len() > 0 && chars[0] == '~' => {
            let mut expanded_path = home.clone();
            let rest = text_of(&chars, 1, chars.len());
            expanded_path.append(rest.as_str());
            assert(chars@.subrange(1, chars.len() as int) == path@.skip(1));
            expanded_path
        },
        _ => path.to_owned(),
    }
}

/// The path that a request names, as it is used on an operation on files: references
/// to variables filled in, where the host does that, then a leading `~` replaced.
pub open spec fn resolved(path: Seq<char>, host: HostView) -> Seq<char> {
    if host.expands_variables {
        without_tilde(expanded(path, host.variables), host.home)
    } else {
        without_tilde(path, host.home)
    }
}

/// Resolves the path that a request names.
pub fn expand_path(path: &str, host: &Host) -> (full: String)
    ensures
        full@ == resolved(path@, host@),
{
    if host.expands_variables {
        let expanded_path = expand_vars(path, &host.variables);
        expand_tilde(expanded_path.as_str(), &host.home)
    } else {
        expand_tilde(path, &host.home)
    }
}

/// The path of `name` inside `directory`.
pub open spec fn joined(directory: Seq<char>, name: Seq<char>, separator: char) -> Seq<char> {
    if directory.len() == 0 {
        name
    } else if directory.last() == separator {
        directory + name
    } else {
        directory.push(separator) + name
    }
}

/// Puts a name behind a directory, with one separator between them.
pub fn join(directory: &str, name: &str, separator: char) -> (path: String)
    ensures
        path@ == joined(directory@, name@, separator),
{
    let chars = chars_of(directory);
    let mut path = directory.to_owned();
    if chars.len() == 0 {
        assert(path@ + name@ == name@);
    } else if chars[chars.len() - 1] != separator {
        push_char(&mut path, separator);
    }
    path.append(name);
    path
}

/// The last part of a path as `std::path::Path::file_name` gives it: nothing for a
/// path that ends in a root or in `..`.
pub uninterp spec fn file_name_of(path: Seq<char>) -> Option<Seq<char>>;

/// A path without its last part as `std::path::Path::parent` gives it: nothing for a
/// path that ends in a root, and for the empty path.
pub uninterp spec fn parent_of(path: Seq<char>) -> Option<Seq<char>>;

/// `std::path::Path::file_name`, from text to text. Nothing is claimed of the result
/// but that it depends on the path alone.
#[verifier::external_body]
pub(crate) fn file_name(path: &str) -> (name: Option<String>)
    ensures
        optional(name) == file_name_of(path@),
{
    match std::path::Path::new(path).file_name() {
        Some(name) => Some(name.to_string_lossy().into_owned()),
        None => None,
    }
}

/// `std::path::Path::parent`, from text to text. Nothing is claimed of the result
/// but that it depends on the path alone.
#[verifier::external_body]
pub(crate) fn parent(path: &str) -> (above: Option<String>)
    ensures
        optional(above) == parent_of(path@),
{
    match std::path::Path::new(path).parent() {
        Some(above) => Some(above.to_string_lossy().into_owned()),
        None => None,
    }
}

/// The name under which the configuration is kept.
pub open spec fn application() -> Seq<char> {
    "tridactyl"@
}

/// The name of the configuration file.
pub open spec fn config_file() -> Seq<char> {
    "tridactylrc"@
}

/// The name of the configuration file where it lies in the home directory.
pub open spec fn hidden_config_file() -> Seq<char> {
    ".tridactylrc"@
}

/// The places where the configuration file is looked for, the first to win first:
/// under the name of the application in the configuration directory, then, hidden,
/// in the home directory. A directory that the host does not know gives no place.
pub open spec fn config_places(host: HostView) -> Seq<Seq<char>> {
    (match host.config_dir {
        Some(directory) => seq![
            joined(joined(directory, application(), host.separator), config_file(), host.separator),
        ],
        None => Seq::empty(),
    }) + (match host.home {
        Some(home) => seq![joined(home, hidden_config_file(), host.separator)],
        None => Seq::empty(),
    })
}

/// Lists the places where the configuration file is looked for.
pub fn config_candidates(host: &Host) -> (places: Vec<String>)
    ensures
        texts(places@) == config_places(host@),
{
    let mut places: Vec<String> = Vec::new();
    match &host.config_dir {
        Some(directory) => {
            let under = join(directory.as_str(), "tridactyl", host.separator);
            places.push(join(under.as_str(), "tridactylrc", host.separator));
        },
        None => {},
    }
    match &host.home {
        Some(home) => {
            places.push(join(home.as_str(), ".tridactylrc", host.separator));
        },
        None => {},
    }
    assert(texts(places@) == config_places(host@));
    places
}

} // verus!
