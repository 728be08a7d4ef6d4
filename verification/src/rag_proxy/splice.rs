//! Putting the context block into the raw text of a payload.
//!
//! The payload is kept as the client wrote it and read as JSON text: the
//! scan knows strings, escapes and nesting. The block goes directly before
//! the quote that closes the content of the latest system message in the
//! list of messages of the payload. Where that list holds no system message
//! with a text as its content, a new system message is put behind the
//! bracket that opens the list. Nothing else of the payload is touched.

use crate::text::{chars_of, hex_fixed, push_hex_fixed, string_of_range};
use vstd::prelude::*;

verus! {

/// The line that opens the context block.
pub open spec fn context_heading() -> Seq<char> {
    "--- Context from: RAG ---\n"@
}

/// The name of the member that holds the messages, between its quotes.
pub open spec fn messages_name() -> Seq<char> {
    "\"messages\""@
}

/// The name of the member that holds the role of a message.
pub open spec fn role_name() -> Seq<char> {
    "\"role\""@
}

/// The name of the member that holds the content of a message.
pub open spec fn content_name() -> Seq<char> {
    "\"content\""@
}

/// The role of a system message, between its quotes.
pub open spec fn system_word() -> Seq<char> {
    "\"system\""@
}

/// `text` with `insert` put in at place `at`.
pub open spec fn insert_at(text: Seq<char>, at: int, insert: Seq<char>) -> Seq<char> {
    text.subrange(0, at) + insert + text.subrange(at, text.len() as int)
}

/// Whether `needle` stands in `hay` at place `at`.
pub open spec fn occurs_at(hay: Seq<char>, needle: Seq<char>, at: int) -> bool {
    0 <= at && at + needle.len() <= hay.len() && hay.subrange(at, at + needle.len()) == needle
}

/// Whether `c` is white space between the tokens of a JSON document.
pub open spec fn is_json_space(c: char) -> bool {
    c == ' ' || c == '\t' || c == '\n' || c == '\r'
}

/// Whether `c` opens an object or an array.
pub open spec fn opens(c: char) -> bool {
    c == '{' || c == '['
}

/// Whether `c` closes an object or an array.
pub open spec fn closes(c: char) -> bool {
    c == '}' || c == ']'
}

/// The first place at or behind `at` that holds no JSON white space, or
/// the end of the text where nothing but white space follows.
pub open spec fn behind_space(text: Seq<char>, at: int) -> int
    decreases text.len() - at,
{
    if at < 0 || at >= text.len() {
        at
    } else if is_json_space(text[at]) {
        behind_space(text, at + 1)
    } else {
        at
    }
}

/// Whether the character `c` is the next one at or behind `at` that is no
/// JSON white space.
pub open spec fn next_is(text: Seq<char>, at: int, c: char) -> bool {
    let place = behind_space(text, at);
    0 <= place < text.len() && text[place] == c
}

/// The place of the quote that closes a string whose inside begins at
/// `at`: the first quote at or behind `at` that no backslash escapes.
pub open spec fn closing_quote(text: Seq<char>, at: int) -> Option<int>
    decreases text.len() + 2 - at,
{
    if at < 0 || at >= text.len() {
        None
    } else if text[at] == '"' {
        Some(at)
    } else if text[at] == '\\' {
        closing_quote(text, at + 2)
    } else {
        closing_quote(text, at + 1)
    }
}

/// The place behind the string that opens with the quote at `at`, or the
/// end of the text where the string does not close.
pub open spec fn behind_string(text: Seq<char>, at: int) -> int {
    match closing_quote(text, at + 1) {
        Some(quote) => quote + 1,
        None => text.len() as int,
    }
}

/// The place behind the bracket that opens an array as the value of a
/// member whose name ends at `at`: white space, a colon, white space and
/// the bracket may stand between.
pub open spec fn array_behind(text: Seq<char>, at: int) -> Option<int> {
    if next_is(text, at, ':') {
        let colon = behind_space(text, at);
        if next_is(text, colon + 1, '[') {
            Some(behind_space(text, colon + 1) + 1)
        } else {
            None
        }
    } else {
        None
    }
}

/// The string that is the value of a member whose name ends at `at`: the
/// places of the quotes that open and close it. `None` where the value is
/// no string.
pub open spec fn string_behind(text: Seq<char>, at: int) -> Option<(int, int)> {
    if next_is(text, at, ':') {
        let colon = behind_space(text, at);
        if next_is(text, colon + 1, '"') {
            let open = behind_space(text, colon + 1);
            match closing_quote(text, open + 1) {
                Some(close) => Some((open, close)),
                None => None,
            }
        } else {
            None
        }
    } else {
        None
    }
}

/// Whether the value of the member whose name ends at `at` is the string
/// `system`.
pub open spec fn system_behind(text: Seq<char>, at: int) -> bool {
    match string_behind(text, at) {
        Some(value) => text.subrange(value.0, value.1 + 1) == system_word(),
        None => false,
    }
}

/// The quote that closes the value of the member whose name ends at `at`,
/// where that value is a string.
pub open spec fn quote_behind(text: Seq<char>, at: int) -> Option<int> {
    match string_behind(text, at) {
        Some(value) => Some(value.1),
        None => None,
    }
}

/// The place behind the bracket that opens the list of messages, as found
/// from place `at` on, `depth` containers deep: the value of the first
/// member named `messages` that stands in the outermost object and whose
/// value is an array. Strings are passed over as a whole, so that nothing
/// inside a string is taken for a name or a bracket.
pub open spec fn list_from(text: Seq<char>, at: int, depth: nat) -> Option<int>
    decreases text.len() - at,
{
    if at < 0 || at >= text.len() {
        None
    } else if text[at] == '"' {
        let next = behind_string(text, at);
        if next <= at || next > text.len() {
            None
        } else if depth == 1 && text.subrange(at, next) == messages_name() && array_behind(
            text,
            next,
        ) is Some {
            array_behind(text, next)
        } else {
            list_from(text, next, depth)
        }
    } else if opens(text[at]) {
        list_from(text, at + 1, depth + 1)
    } else if closes(text[at]) {
        list_from(
            text,
            at + 1,
            if depth > 0 {
                (depth - 1) as nat
            } else {
                0
            },
        )
    } else {
        list_from(text, at + 1, depth)
    }
}

/// The place behind the bracket that opens the list of messages of the
/// payload `raw`.
pub open spec fn messages_list(raw: Seq<char>) -> Option<int> {
    list_from(raw, 0, 0)
}

/// The latest system message of a list of messages, as found from place
/// `at` on. `depth` is 1 between the messages and 2 inside a message.
/// `system` and `content` say of the message at hand whether its role is
/// `system` and where the string that is its content closes. `latest` is
/// the outcome for the messages that lie behind: `None` where none of them
/// is a system message, else the closing quote of the content of the latest
/// one, or `None` inside where its content is no string.
///
/// The outcome is the same kind of value for the whole list, which ends at
/// the bracket that closes it.
pub open spec fn target_from(
    text: Seq<char>,
    at: int,
    depth: nat,
    system: bool,
    content: Option<int>,
    latest: Option<Option<int>>,
) -> Option<Option<int>>
    decreases text.len() - at,
{
    if at < 0 || at >= text.len() {
        latest
    } else if text[at] == '"' {
        let next = behind_string(text, at);
        if next <= at || next > text.len() {
            latest
        } else if depth == 2 && next_is(text, next, ':') && text.subrange(at, next)
            == role_name() {
            target_from(text, next, depth, system_behind(text, next), content, latest)
        } else if depth == 2 && next_is(text, next, ':') && text.subrange(at, next)
            == content_name() {
            target_from(text, next, depth, system, quote_behind(text, next), latest)
        } else {
            target_from(text, next, depth, system, content, latest)
        }
    } else if opens(text[at]) {
        if depth == 1 {
            target_from(text, at + 1, 2, false, None, latest)
        } else {
            target_from(text, at + 1, depth + 1, system, content, latest)
        }
    } else if closes(text[at]) {
        if depth <= 1 {
            latest
        } else if depth == 2 {
            target_from(
                text,
                at + 1,
                1,
                false,
                None,
                if system {
                    Some(content)
                } else {
                    latest
                },
            )
        } else {
            target_from(text, at + 1, (depth - 1) as nat, system, content, latest)
        }
    } else {
        target_from(text, at + 1, depth, system, content, latest)
    }
}

/// The quote that closes the content of the latest system message of the
/// payload `raw`, where the payload has a list of messages, the list holds
/// a system message, and the content of the latest one is a string.
pub open spec fn target_quote(raw: Seq<char>) -> Option<int> {
    match messages_list(raw) {
        Some(list) => match target_from(raw, list, 1, false, None, None) {
            Some(Some(quote)) => Some(quote),
            _ => None,
        },
        None => None,
    }
}

/// What stands between the quotes of a JSON string literal; `None` for a
/// text that does not begin and end with a quote.
pub open spec fn literal_inner(literal: Seq<char>) -> Option<Seq<char>> {
    if literal.len() >= 2 && literal.first() == '"' && literal.last() == '"' {
        Some(literal.subrange(1, literal.len() - 1))
    } else {
        None
    }
}

/// A system message whose content is the JSON string literal `literal`.
pub open spec fn system_message(literal: Seq<char>) -> Seq<char> {
    "{\"role\":\"system\",\"content\":"@ + literal + "}"@
}

/// The payload `raw` with a system message in front of the messages of the
/// list that opens at `list`: the message, whose content is the literal
/// `literal`, goes behind the bracket, followed by a comma unless the list
/// closes there.
pub open spec fn with_first_message(raw: Seq<char>, list: int, literal: Seq<char>) -> Seq<char> {
    if next_is(raw, list, ']') {
        insert_at(raw, list, system_message(literal))
    } else {
        insert_at(raw, list, system_message(literal) + ","@)
    }
}

/// The payload `raw` with the context block spliced in. `literal` is the
/// block as a JSON string literal.
///
/// Where the latest system message of the payload's list of messages has a
/// string as its content, what stands between the quotes of the literal
/// goes directly before the quote that closes that string. Otherwise a
/// system message made of the block is put in front of the messages. A
/// payload without a list of messages stays as it is, and so does every
/// payload where the literal lacks its quotes and a string is the target.
pub open spec fn spliced(raw: Seq<char>, literal: Seq<char>) -> Seq<char> {
    match messages_list(raw) {
        None => raw,
        Some(list) => match target_from(raw, list, 1, false, None, None) {
            Some(Some(quote)) => match literal_inner(literal) {
                Some(inner) => insert_at(raw, quote, inner),
                None => raw,
            },
            _ => with_first_message(raw, list, literal),
        },
    }
}

/// Whether `needle` stands in `hay` from place `from` to place `to`.
fn spans(hay: &Vec<char>, from: usize, to: usize, needle: &Vec<char>) -> (b: bool)
    requires
        from <= to <= hay.len(),
    ensures
        b == (hay@.subrange(from as int, to as int) == needle@),
{
    let n = needle.len();
    if to - from != n {
        assert(hay@.subrange(from as int, to as int).len() != needle@.len());
        return false;
    }
    let mut j: usize = 0;
    while j < n && hay[from + j] == needle[j]
        invariant
            n == needle.len(),
            from + n == to,
            to <= hay.len(),
            j <= n,
            hay@.subrange(from as int, from + j) == needle@.take(j as int),
        decreases n - j,
    {
        assert(hay@.subrange(from as int, from + j + 1) =~= hay@.subrange(
            from as int,
            from + j,
        ).push(hay@[from + j]));
        assert(needle@.take(j + 1) =~= needle@.take(j as int).push(needle@[j as int]));
        j += 1;
    }
    if j == n {
        assert(needle@.take(n as int) =~= needle@);
        true
    } else {
        assert(hay@.subrange(from as int, to as int) != needle@) by {
            assert(hay@.subrange(from as int, to as int)[j as int] == hay@[from + j]);
        }
        false
    }
}

/// The first place at or behind `at` that holds no JSON white space.
fn skip_space(text: &Vec<char>, at: usize) -> (place: usize)
    requires
        at <= text.len(),
    ensures
        place == behind_space(text@, at as int),
        at <= place <= text.len(),
{
    let mut i: usize = at;
    while i < text.len() && (text[i] == ' ' || text[i] == '\t' || text[i] == '\n' || text[i]
        == '\r')
        invariant
            at <= i <= text.len(),
            behind_space(text@, at as int) == behind_space(text@, i as int),
        decreases text.len() - i,
    {
        i += 1;
    }
    i
}

/// Whether `c` is the next character at or behind `at` that is no JSON
/// white space.
fn next_char_is(text: &Vec<char>, at: usize, c: char) -> (b: bool)
    requires
        at <= text.len(),
    ensures
        b == next_is(text@, at as int, c),
{
    let place = skip_space(text, at);
    place < text.len() && text[place] == c
}

/// The quote that closes a string whose inside begins at `at`.
fn find_closing_quote(text: &Vec<char>, at: usize) -> (quote: Option<usize>)
    requires
        at <= text.len(),
    ensures
        match quote {
            Some(place) => closing_quote(text@, at as int) == Some(place as int) && at <= place
                < text.len(),
            None => closing_quote(text@, at as int) is None,
        },
{
    let mut i: usize = at;
    while i < text.len()
        invariant
            at <= i <= text.len(),
            closing_quote(text@, at as int) == closing_quote(text@, i as int),
        decreases text.len() - i,
    {
        let c = text[i];
        if c == '"' {
            return Some(i);
        } else if c == '\\' {
            if i + 1 >= text.len() {
                assert(closing_quote(text@, i + 2) is None);
                return None;
            }
            i += 2;
        } else {
            i += 1;
        }
    }
    None
}

/// The place behind the string that opens with the quote at `at`.
fn string_end(text: &Vec<char>, at: usize) -> (next: usize)
    requires
        at < text.len(),
    ensures
        next == behind_string(text@, at as int),
        at < next <= text.len(),
{
    match find_closing_quote(text, at + 1) {
        Some(quote) => quote + 1,
        None => text.len(),
    }
}

/// The place behind the bracket that opens an array as the value of a
/// member whose name ends at `at`.
fn array_start(text: &Vec<char>, at: usize) -> (behind: Option<usize>)
    requires
        at <= text.len(),
    ensures
        match behind {
            Some(place) => array_behind(text@, at as int) == Some(place as int) && 0 < place
                <= text.len(),
            None => array_behind(text@, at as int) is None,
        },
{
    let colon = skip_space(text, at);
    if colon < text.len() && text[colon] == ':' {
        let bracket = skip_space(text, colon + 1);
        if bracket < text.len() && text[bracket] == '[' {
            Some(bracket + 1)
        } else {
            None
        }
    } else {
        None
    }
}

/// The string that is the value of a member whose name ends at `at`.
fn string_value(text: &Vec<char>, at: usize) -> (value: Option<(usize, usize)>)
    requires
        at <= text.len(),
    ensures
        match value {
            Some(found) => string_behind(text@, at as int) == Some(
                (found.0 as int, found.1 as int),
            ) && found.0 < found.1 < text.len(),
            None => string_behind(text@, at as int) is None,
        },
{
    let colon = skip_space(text, at);
    if colon < text.len() && text[colon] == ':' {
        let open = skip_space(text, colon + 1);
        if open < text.len() && text[open] == '"' {
            match find_closing_quote(text, open + 1) {
                Some(close) => Some((open, close)),
                None => None,
            }
        } else {
            None
        }
    } else {
        None
    }
}

/// The place behind the bracket that opens the list of messages of the
/// payload `raw`.
pub fn find_messages_list(raw: &Vec<char>) -> (behind: Option<usize>)
    ensures
        match behind {
            Some(place) => messages_list(raw@) == Some(place as int) && 0 < place <= raw.len(),
            None => messages_list(raw@) is None,
        },
{
    let name = chars_of("\"messages\"");
    let mut at: usize = 0;
    let mut depth: usize = 0;
    while at < raw.len()
        invariant
            at <= raw.len(),
            depth <= at,
            name@ == messages_name(),
            messages_list(raw@) == list_from(raw@, at as int, depth as nat),
        decreases raw.len() - at,
    {
        let c = raw[at];
        if c == '"' {
            let next = string_end(raw, at);
            if depth == 1 && spans(raw, at, next, &name) {
                match array_start(raw, next) {
                    Some(place) => {
                        return Some(place);
                    },
                    None => {},
                }
            }
            at = next;
        } else if c == '{' || c == '[' {
            depth += 1;
            at += 1;
        } else if c == '}' || c == ']' {
            if depth > 0 {
                depth -= 1;
            }
            at += 1;
        } else {
            at += 1;
        }
    }
    None
}

/// The latest system message of the list of messages that opens at `list`:
/// `None` where the list holds none, else the quote that closes its
/// content, or `None` inside where its content is no string.
fn find_target(raw: &Vec<char>, list: usize) -> (target: Option<Option<usize>>)
    requires
        0 < list <= raw.len(),
    ensures
        match target {
            Some(Some(quote)) => target_from(raw@, list as int, 1, false, None, None) == Some(
                Some(quote as int),
            ) && quote < raw.len(),
            Some(None) => target_from(raw@, list as int, 1, false, None, None) == Some(
                None::<int>,
            ),
            None => target_from(raw@, list as int, 1, false, None, None) is None,
        },
{
    let role = chars_of("\"role\"");
    let content_word = chars_of("\"content\"");
    let system_text = chars_of("\"system\"");
    let mut at: usize = list;
    let mut depth: usize = 1;
    let mut system: bool = false;
    let mut content: Option<usize> = None;
    let mut latest: Option<Option<usize>> = None;
    while at < raw.len()
        invariant
            at <= raw.len(),
            depth <= at,
            role@ == role_name(),
            content_word@ == content_name(),
            system_text@ == system_word(),
            content matches Some(quote) ==> quote < raw.len(),
            latest matches Some(Some(quote)) ==> quote < raw.len(),
            target_from(raw@, list as int, 1, false, None, None) == target_from(
                raw@,
                at as int,
                depth as nat,
                system,
                as_place(content),
                as_places(latest),
            ),
        decreases raw.len() - at,
    {
        let c = raw[at];
        if c == '"' {
            let next = string_end(raw, at);
            if depth == 2 && next_char_is(raw, next, ':') {
                if spans(raw, at, next, &role) {
                    system = match string_value(raw, next) {
                        Some(value) => spans(raw, value.0, value.1 + 1, &system_text),
                        None => false,
                    };
                } else if spans(raw, at, next, &content_word) {
                    content = match string_value(raw, next) {
                        Some(value) => Some(value.1),
                        None => None,
                    };
                }
            }
            at = next;
        } else if c == '{' || c == '[' {
            if depth == 1 {
                depth = 2;
                system = false;
                content = None;
            } else {
                depth += 1;
            }
            at += 1;
        } else if c == '}' || c == ']' {
            if depth <= 1 {
                return latest;
            } else if depth == 2 {
                if system {
                    latest = Some(content);
                }
                depth = 1;
                system = false;
                content = None;
            } else {
                depth -= 1;
            }
            at += 1;
        } else {
            at += 1;
        }
    }
    latest
}

/// A place of the text as a number of the specification.
pub open spec fn as_place(place: Option<usize>) -> Option<int> {
    match place {
        Some(at) => Some(at as int),
        None => None,
    }
}

/// The outcome of a search for the latest system message as numbers of the
/// specification.
pub open spec fn as_places(latest: Option<Option<usize>>) -> Option<Option<int>> {
    match latest {
        Some(place) => Some(as_place(place)),
        None => None,
    }
}

/// `text` with `insert` put in at place `at`.
fn insert_text(text: &Vec<char>, at: usize, insert: &str) -> (out: String)
    requires
        at <= text.len(),
    ensures
        out@ == insert_at(text@, at as int, insert@),
{
    let mut out = string_of_range(text, 0, at);
    out.append(insert);
    let rest = string_of_range(text, at, text.len());
    out.append(rest.as_str());
    out
}

/// Splices the context block into the payload `raw`. `literal` is the block
/// as a JSON string literal.
pub fn splice_context(raw: &str, literal: &str) -> (out: String)
    ensures
        out@ == spliced(raw@, literal@),
{
    let raw_chars = chars_of(raw);
    let list = match find_messages_list(&raw_chars) {
        Some(list) => list,
        None => {
            return raw.to_owned();
        },
    };
    match find_target(&raw_chars, list) {
        Some(Some(quote)) => {
            let quoted = chars_of(literal);
            let n = quoted.len();
            if n < 2 || quoted[0] != '"' || quoted[n - 1] != '"' {
                return raw.to_owned();
            }
            let inner = string_of_range(&quoted, 1, n - 1);
            insert_text(&raw_chars, quote, inner.as_str())
        },
        _ => {
            let mut message = "{\"role\":\"system\",\"content\":".to_owned();
            message.append(literal);
            message.append("}");
            if !next_char_is(&raw_chars, list, ']') {
                message.append(",");
            }
            insert_text(&raw_chars, list, message.as_str())
        },
    }
}

/// The context block: the heading, then the context.
pub fn context_block(context: &str) -> (block: String)
    ensures
        block@ == context_heading() + context@,
{
    let mut block = "--- Context from: RAG ---\n".to_owned();
    block.append(context);
    block
}

/// How a character stands inside a JSON string literal: a quote and a
/// backslash behind a backslash, the control characters below U+0020 by
/// their short names or as `\u00` with two hexadecimal digits, and every
/// other character as it is.
pub open spec fn escaped_char(c: char) -> Seq<char> {
    if c == '"' {
        seq!['\\', '"']
    } else if c == '\\' {
        seq!['\\', '\\']
    } else if c == '\u{8}' {
        seq!['\\', 'b']
    } else if c == '\t' {
        seq!['\\', 't']
    } else if c == '\n' {
        seq!['\\', 'n']
    } else if c == '\u{c}' {
        seq!['\\', 'f']
    } else if c == '\r' {
        seq!['\\', 'r']
    } else if (c as u32) < 0x20 {
        seq!['\\', 'u', '0', '0'] + hex_fixed(c as nat, 2)
    } else {
        seq![c]
    }
}

/// `text` as it stands inside a JSON string literal.
pub open spec fn escaped(text: Seq<char>) -> Seq<char>
    decreases text.len(),
{
    if text.len() == 0 {
        Seq::empty()
    } else {
        escaped(text.drop_last()) + escaped_char(text.last())
    }
}

/// The JSON string literal of a text: the text between quotes, with the
/// characters escaped that JSON does not take as they are.
pub open spec fn json_literal(text: Seq<char>) -> Seq<char> {
    seq!['"'] + escaped(text) + seq!['"']
}

/// The literal of a text has its quotes, and the escaped text stands
/// between them.
pub proof fn lemma_literal_is_quoted(text: Seq<char>)
    ensures
        literal_inner(json_literal(text)) == Some(escaped(text)),
{
    let literal = json_literal(text);
    assert(literal.subrange(1, literal.len() - 1) =~= escaped(text));
}

fn push_escaped(out: &mut String, c: char)
    ensures
        final(out)@ == old(out)@ + escaped_char(c),
{
    let ghost before = out@;
    if c == '"' {
        out.push('\\');
        out.push('"');
        assert(out@ =~= before + seq!['\\', '"']);
    } else if c == '\\' {
        out.push('\\');
        out.push('\\');
        assert(out@ =~= before + seq!['\\', '\\']);
    } else if c == '\u{8}' {
        out.push('\\');
        out.push('b');
        assert(out@ =~= before + seq!['\\', 'b']);
    } else if c == '\t' {
        out.push('\\');
        out.push('t');
        assert(out@ =~= before + seq!['\\', 't']);
    } else if c == '\n' {
        out.push('\\');
        out.push('n');
        assert(out@ =~= before + seq!['\\', 'n']);
    } else if c == '\u{c}' {
        out.push('\\');
        out.push('f');
        assert(out@ =~= before + seq!['\\', 'f']);
    } else if c == '\r' {
        out.push('\\');
        out.push('r');
        assert(out@ =~= before + seq!['\\', 'r']);
    } else if (c as u32) < 0x20 {
        out.push('\\');
        out.push('u');
        out.push('0');
        out.push('0');
        push_hex_fixed(out, c as u64, 2);
        assert(out@ =~= before + (seq!['\\', 'u', '0', '0'] + hex_fixed(c as nat, 2)));
    } else {
        out.push(c);
        assert(out@ =~= before + seq![c]);
    }
}

/// Writes `text` as a JSON string literal.
pub fn to_json_literal(text: &str) -> (literal: String)
    ensures
        literal@ == json_literal(text@),
{
    let chars = chars_of(text);
    let mut literal = String::new();
    literal.push('"');
    let mut i: usize = 0;
    assert(chars@.take(0) =~= Seq::<char>::empty());
    assert(literal@ =~= seq!['"'] + escaped(chars@.take(0)));
    while i < chars.len()
        invariant
            i <= chars.len(),
            literal@ == seq!['"'] + escaped(chars@.take(i as int)),
        decreases chars.len() - i,
    {
        assert(chars@.take(i + 1).drop_last() =~= chars@.take(i as int));
        assert(chars@.take(i + 1).last() == chars@[i as int]);
        let ghost before = escaped(chars@.take(i as int));
        push_escaped(&mut literal, chars[i]);
        assert(literal@ =~= seq!['"'] + (before + escaped_char(chars@[i as int])));
        i += 1;
    }
    assert(chars@.take(chars.len() as int) =~= chars@);
    literal.push('"');
    assert(literal@ =~= seq!['"'] + escaped(text@) + seq!['"']);
    literal
}

/// The payload that is forwarded: `raw` with the context spliced in, or
/// `raw` itself where the context is empty.
pub open spec fn injected(raw: Seq<char>, context: Seq<char>) -> Seq<char> {
    if context.len() == 0 {
        raw
    } else {
        spliced(raw, json_literal(context_heading() + context))
    }
}

/// Whether the JSON literal of the block that is made of `context` has its
/// quotes. It has them for every context.
pub open spec fn block_is_quoted(context: Seq<char>) -> bool {
    literal_inner(json_literal(context_heading() + context)) is Some
}

/// Puts the retrieved context into the payload `raw`. An empty context
/// leaves the payload as it is.
pub fn inject_context(raw: &str, context: &str) -> (out: String)
    ensures
        out@ == injected(raw@, context@),
        context@.len() > 0 ==> block_is_quoted(context@),
{
    if context.is_empty() {
        return raw.to_owned();
    }
    let block = context_block(context);
    let literal = to_json_literal(block.as_str());
    proof {
        lemma_literal_is_quoted(block@);
    }
    splice_context(raw, literal.as_str())
}

proof fn lemma_behind_space(text: Seq<char>, at: int)
    requires
        0 <= at <= text.len(),
    ensures
        at <= behind_space(text, at) <= text.len(),
    decreases text.len() - at,
{
    if at < text.len() && is_json_space(text[at]) {
        lemma_behind_space(text, at + 1);
    }
}

/// A closing quote is a quote of the text, at or behind the place from
/// which it was looked for.
pub proof fn lemma_closing_quote(text: Seq<char>, at: int)
    requires
        0 <= at,
    ensures
        closing_quote(text, at) matches Some(quote) ==> at <= quote < text.len() && text[quote]
            == '"',
    decreases text.len() + 2 - at,
{
    if at < text.len() && text[at] != '"' {
        if text[at] == '\\' {
            lemma_closing_quote(text, at + 2);
        } else {
            lemma_closing_quote(text, at + 1);
        }
    }
}

proof fn lemma_array_behind(text: Seq<char>, at: int)
    requires
        0 <= at <= text.len(),
    ensures
        array_behind(text, at) matches Some(place) ==> at + 2 <= place <= text.len() && text[place
            - 1] == '[',
{
    lemma_behind_space(text, at);
    let colon = behind_space(text, at);
    if next_is(text, at, ':') {
        lemma_behind_space(text, colon + 1);
    }
}

proof fn lemma_string_behind(text: Seq<char>, at: int)
    requires
        0 <= at <= text.len(),
    ensures
        string_behind(text, at) matches Some(value) ==> at < value.0 < value.1 < text.len()
            && text[value.0] == '"' && text[value.1] == '"' && closing_quote(text, value.0 + 1)
            == Some(value.1),
{
    lemma_behind_space(text, at);
    let colon = behind_space(text, at);
    if next_is(text, at, ':') {
        lemma_behind_space(text, colon + 1);
        if next_is(text, colon + 1, '"') {
            lemma_closing_quote(text, behind_space(text, colon + 1) + 1);
        }
    }
}

/// Whether the member named `messages` stands at `key` in the text with an
/// array as its value, and where that array opens.
pub open spec fn list_opens_behind(text: Seq<char>, key: int) -> Option<int> {
    if occurs_at(text, messages_name(), key) {
        array_behind(text, key + messages_name().len())
    } else {
        None
    }
}

/// The list of messages that is found opens behind a bracket of the text,
/// as the value of a member named `messages`.
pub proof fn lemma_list_from(text: Seq<char>, at: int, depth: nat)
    requires
        0 <= at,
    ensures
        list_from(text, at, depth) matches Some(list) ==> {
            &&& at < list <= text.len()
            &&& text[list - 1] == '['
            &&& exists|key: int| at <= key && #[trigger] list_opens_behind(text, key) == Some(list)
        },
    decreases text.len() - at,
{
    if at < text.len() {
        if text[at] == '"' {
            let next = behind_string(text, at);
            if next <= at || next > text.len() {
            } else if depth == 1 && text.subrange(at, next) == messages_name() && array_behind(
                text,
                next,
            ) is Some {
                lemma_array_behind(text, next);
                assert(text.subrange(at, next).len() == next - at);
                assert(list_opens_behind(text, at) == array_behind(text, next));
            } else {
                lemma_list_from(text, next, depth);
                if list_from(text, next, depth) is Some {
                    let list = list_from(text, next, depth)->0;
                    let key = choose|key: int|
                        next <= key && #[trigger] list_opens_behind(text, key) == Some(list);
                    assert(list_opens_behind(text, key) == Some(list));
                }
            }
        } else {
            let deeper = if opens(text[at]) {
                depth + 1
            } else if closes(text[at]) {
                if depth > 0 {
                    (depth - 1) as nat
                } else {
                    0
                }
            } else {
                depth
            };
            lemma_list_from(text, at + 1, deeper);
            if list_from(text, at + 1, deeper) is Some {
                let list = list_from(text, at + 1, deeper)->0;
                let key = choose|key: int|
                    at + 1 <= key && #[trigger] list_opens_behind(text, key) == Some(list);
                assert(list_opens_behind(text, key) == Some(list));
            }
        }
    }
}

/// Where the string closes that is the value of a member named `content`
/// standing at `key`.
pub open spec fn content_closes_behind(text: Seq<char>, key: int) -> Option<int> {
    if occurs_at(text, content_name(), key) {
        quote_behind(text, key + content_name().len())
    } else {
        None
    }
}

/// Whether `quote` is the quote that closes the string value of a member
/// named `content`.
pub open spec fn closes_a_content(text: Seq<char>, quote: int) -> bool {
    &&& 0 < quote < text.len()
    &&& text[quote] == '"'
    &&& exists|key: int| 0 <= key && #[trigger] content_closes_behind(text, key) == Some(quote)
}

proof fn lemma_target_from(
    text: Seq<char>,
    at: int,
    depth: nat,
    system: bool,
    content: Option<int>,
    latest: Option<Option<int>>,
)
    requires
        0 <= at,
        content matches Some(quote) ==> closes_a_content(text, quote),
        latest matches Some(Some(quote)) ==> closes_a_content(text, quote),
    ensures
        target_from(text, at, depth, system, content, latest) matches Some(Some(quote))
            ==> closes_a_content(text, quote),
    decreases text.len() - at,
{
    if at < text.len() {
        if text[at] == '"' {
            let next = behind_string(text, at);
            if next <= at || next > text.len() {
            } else if depth == 2 && next_is(text, next, ':') && text.subrange(at, next)
                == role_name() {
                lemma_target_from(text, next, depth, system_behind(text, next), content, latest);
            } else if depth == 2 && next_is(text, next, ':') && text.subrange(at, next)
                == content_name() {
                lemma_string_behind(text, next);
                assert(text.subrange(at, next).len() == next - at);
                assert(content_closes_behind(text, at) == quote_behind(text, next));
                lemma_target_from(text, next, depth, system, quote_behind(text, next), latest);
            } else {
                lemma_target_from(text, next, depth, system, content, latest);
            }
        } else if opens(text[at]) {
            if depth == 1 {
                lemma_target_from(text, at + 1, 2, false, None, latest);
            } else {
                lemma_target_from(text, at + 1, depth + 1, system, content, latest);
            }
        } else if closes(text[at]) {
            if depth <= 1 {
            } else if depth == 2 {
                lemma_target_from(
                    text,
                    at + 1,
                    1,
                    false,
                    None,
                    if system {
                        Some(content)
                    } else {
                        latest
                    },
                );
            } else {
                lemma_target_from(text, at + 1, (depth - 1) as nat, system, content, latest);
            }
        } else {
            lemma_target_from(text, at + 1, depth, system, content, latest);
        }
    }
}

/// The quote at which the block goes in closes the string that is the
/// content of a message.
pub proof fn lemma_target_quote(raw: Seq<char>)
    ensures
        target_quote(raw) matches Some(quote) ==> closes_a_content(raw, quote),
{
    lemma_list_from(raw, 0, 0);
    if messages_list(raw) is Some {
        lemma_target_from(raw, messages_list(raw)->0, 1, false, None, None);
    }
}

/// Whether `out` is `raw` with one text put in at one place, or `raw`
/// itself: every character of `raw` is kept, in order.
pub open spec fn keeps_payload(raw: Seq<char>, out: Seq<char>) -> bool {
    exists|at: int, insert: Seq<char>|
        0 <= at <= raw.len() && out == #[trigger] insert_at(raw, at, insert)
}

/// Splicing touches nothing of the payload but the one place where the
/// context goes in.
pub proof fn lemma_splice_keeps_payload(raw: Seq<char>, literal: Seq<char>)
    ensures
        keeps_payload(raw, spliced(raw, literal)),
{
    let out = spliced(raw, literal);
    assert(raw =~= insert_at(raw, 0, Seq::empty()));
    lemma_list_from(raw, 0, 0);
    lemma_target_quote(raw);
    match messages_list(raw) {
        None => {},
        Some(list) => match target_from(raw, list, 1, false, None, None) {
            Some(Some(quote)) => match literal_inner(literal) {
                Some(inner) => {
                    assert(out == insert_at(raw, quote, inner));
                },
                None => {},
            },
            _ => {
                if next_is(raw, list, ']') {
                    assert(out == insert_at(raw, list, system_message(literal)));
                } else {
                    assert(out == insert_at(raw, list, system_message(literal) + ","@));
                }
            },
        },
    }
}

/// Where the latest system message has a string as its content, the block
/// stands directly before the quote that closes that string: the spliced
/// payload is the payload up to that quote, the block, and the payload from
/// that quote on. The last characters of the content, however many are
/// taken for its fingerprint, are directly followed by the block.
pub proof fn lemma_block_stands_before_the_quote(
    raw: Seq<char>,
    literal: Seq<char>,
    fingerprint_length: nat,
)
    requires
        target_quote(raw) is Some,
        literal_inner(literal) is Some,
    ensures
        ({
            let quote = target_quote(raw)->0;
            let inner = literal_inner(literal)->0;
            let out = spliced(raw, literal);
            &&& closes_a_content(raw, quote)
            &&& out == raw.subrange(0, quote) + inner + raw.subrange(quote, raw.len() as int)
            &&& occurs_at(out, inner, quote)
            &&& out[quote + inner.len()] == '"'
            &&& fingerprint_length <= quote ==> occurs_at(
                out,
                raw.subrange(quote - fingerprint_length, quote) + inner,
                quote - fingerprint_length,
            )
        }),
{
    let quote = target_quote(raw)->0;
    let inner = literal_inner(literal)->0;
    let out = spliced(raw, literal);
    lemma_target_quote(raw);
    assert(out == insert_at(raw, quote, inner));
    assert(out.subrange(quote, quote + inner.len()) =~= inner);
    if fingerprint_length <= quote {
        let mark = raw.subrange(quote - fingerprint_length, quote);
        assert(out.subrange(quote - fingerprint_length, quote - fingerprint_length + (mark
            + inner).len()) =~= mark + inner);
    }
}

/// Where the payload has a list of messages and no system message with a
/// string as its content is the target, the spliced payload holds a system
/// message with the context block right behind the bracket that opens the
/// list: it is the first of the messages. What stood in front of the
/// bracket and what stood behind it is kept, with a comma in between unless
/// the list was empty.
pub proof fn lemma_system_message_is_put_first(raw: Seq<char>, literal: Seq<char>)
    requires
        messages_list(raw) is Some,
        target_quote(raw) is None,
    ensures
        ({
            let list = messages_list(raw)->0;
            let out = spliced(raw, literal);
            let comma = if next_is(raw, list, ']') {
                Seq::<char>::empty()
            } else {
                ","@
            };
            &&& 0 < list <= raw.len()
            &&& raw[list - 1] == '['
            &&& out == raw.subrange(0, list) + system_message(literal) + comma + raw.subrange(
                list,
                raw.len() as int,
            )
            &&& occurs_at(out, system_message(literal), list)
        }),
{
    let list = messages_list(raw)->0;
    let out = spliced(raw, literal);
    let message = system_message(literal);
    lemma_list_from(raw, 0, 0);
    assert(out == with_first_message(raw, list, literal));
    if next_is(raw, list, ']') {
        assert(out =~= raw.subrange(0, list) + message + Seq::<char>::empty() + raw.subrange(
            list,
            raw.len() as int,
        ));
    } else {
        assert(out =~= raw.subrange(0, list) + message + ","@ + raw.subrange(
            list,
            raw.len() as int,
        ));
    }
    assert(out.subrange(list, list + message.len()) =~= message);
}

/// A payload without a list of messages is forwarded as it is.
pub proof fn lemma_without_a_list_nothing_is_put_in(raw: Seq<char>, literal: Seq<char>)
    requires
        messages_list(raw) is None,
    ensures
        spliced(raw, literal) == raw,
{
}

/// A request whose context is empty is forwarded as the client sent it.
pub proof fn lemma_empty_context_forwards_unmodified(raw: Seq<char>)
    ensures
        injected(raw, Seq::empty()) == raw,
{
}

/// A context that is not empty is appended to the text of the latest system
/// message: where that message has a string as its content, the forwarded
/// payload is the payload up to the quote that closes the string, the
/// escaped block, and the payload from that quote on.
pub proof fn lemma_context_is_appended(raw: Seq<char>, context: Seq<char>)
    requires
        context.len() > 0,
        target_quote(raw) is Some,
    ensures
        ({
            let quote = target_quote(raw)->0;
            let block = escaped(context_heading() + context);
            &&& closes_a_content(raw, quote)
            &&& injected(raw, context) == raw.subrange(0, quote) + block + raw.subrange(
                quote,
                raw.len() as int,
            )
        }),
{
    let literal = json_literal(context_heading() + context);
    lemma_literal_is_quoted(context_heading() + context);
    lemma_block_stands_before_the_quote(raw, literal, 0);
}

/// A context that is not empty comes as a new first message where no system
/// message with a string as its content is there to take it: the forwarded
/// payload is the payload up to the bracket that opens the list of messages,
/// a system message whose content is the block, a comma unless the list is
/// empty, and the payload behind the bracket.
pub proof fn lemma_context_comes_first(raw: Seq<char>, context: Seq<char>)
    requires
        context.len() > 0,
        messages_list(raw) is Some,
        target_quote(raw) is None,
    ensures
        ({
            let list = messages_list(raw)->0;
            let message = system_message(json_literal(context_heading() + context));
            let comma = if next_is(raw, list, ']') {
                Seq::<char>::empty()
            } else {
                ","@
            };
            &&& raw[list - 1] == '['
            &&& injected(raw, context) == raw.subrange(0, list) + message + comma + raw.subrange(
                list,
                raw.len() as int,
            )
        }),
{
    lemma_system_message_is_put_first(raw, json_literal(context_heading() + context));
}

/// What stands inside a string is passed over as a whole: from a quote
/// that opens a string, the list of messages is looked for behind the
/// string, unless the string is the name that is looked for.
pub proof fn lemma_strings_are_passed_over(text: Seq<char>, at: int, depth: nat)
    requires
        0 <= at < text.len(),
        text[at] == '"',
        closing_quote(text, at + 1) is Some,
        depth != 1 || text.subrange(at, behind_string(text, at)) != messages_name(),
    ensures
        list_from(text, at, depth) == list_from(text, behind_string(text, at), depth),
{
    lemma_closing_quote(text, at + 1);
}

} // verus!
