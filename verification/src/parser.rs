//! The command grammar: what a line of input asks for.
//!
//! Input arrives as bytes. It is read as UTF-8, with what is not UTF-8
//! replaced, and trimmed of white space at both ends. What a connection
//! without a subscription sends is one of a few commands; what a connection
//! with a subscription sends is a message to publish, unless it is the one
//! word that ends the subscription.

use vstd::prelude::*;
use vstd::string::*;
use vstd::utf8::*;

verus! {

/// What a connection without a subscription may ask for.
#[derive(Debug, PartialEq, Eq)]
pub enum NonSubscriptionCmdType {
    Exit,
    Ping,
    PingValue(Vec<u8>),
    SetValue(String, Vec<u8>),
    Get(String),
    Subscribe(String),
    Other,
}

/// What a connection with a subscription may ask for.
#[derive(Debug, PartialEq, Eq)]
pub enum SubscriptionCmdType {
    Publish(Vec<u8>),
    Unsubscribe,
}

/// A `NonSubscriptionCmdType` as contracts see it.
pub enum NonSubscriptionCmd {
    Exit,
    Ping,
    PingValue(Seq<u8>),
    SetValue(Seq<char>, Seq<u8>),
    Get(Seq<char>),
    Subscribe(Seq<char>),
    Other,
}

/// A `SubscriptionCmdType` as contracts see it.
pub enum SubscriptionCmd {
    Publish(Seq<u8>),
    Unsubscribe,
}

impl View for NonSubscriptionCmdType {
    type V = NonSubscriptionCmd;

    open spec fn view(&self) -> NonSubscriptionCmd {
        match self {
            NonSubscriptionCmdType::Exit => NonSubscriptionCmd::Exit,
            NonSubscriptionCmdType::Ping => NonSubscriptionCmd::Ping,
            NonSubscriptionCmdType::PingValue(value) => NonSubscriptionCmd::PingValue(value@),
            NonSubscriptionCmdType::SetValue(key, value) => NonSubscriptionCmd::SetValue(
                key@,
                value@,
            ),
            NonSubscriptionCmdType::Get(key) => NonSubscriptionCmd::Get(key@),
            NonSubscriptionCmdType::Subscribe(topic) => NonSubscriptionCmd::Subscribe(topic@),
            NonSubscriptionCmdType::Other => NonSubscriptionCmd::Other,
        }
    }
}

impl View for SubscriptionCmdType {
    type V = SubscriptionCmd;

    open spec fn view(&self) -> SubscriptionCmd {
        match self {
            SubscriptionCmdType::Publish(message) => SubscriptionCmd::Publish(message@),
            SubscriptionCmdType::Unsubscribe => SubscriptionCmd::Unsubscribe,
        }
    }
}

/// Whether `c` is white space, as Unicode's property White_Space has it.
pub open spec fn is_white_space(c: char) -> bool {
    let u = c as u32;
    ||| 0x09 <= u <= 0x0D
    ||| u == 0x20
    ||| u == 0x85
    ||| u == 0xA0
    ||| u == 0x1680
    ||| 0x2000 <= u <= 0x200A
    ||| u == 0x2028
    ||| u == 0x2029
    ||| u == 0x202F
    ||| u == 0x205F
    ||| u == 0x3000
}

/// Whether `c` is an ASCII letter or digit.
pub open spec fn is_alphanumeric(c: char) -> bool {
    let u = c as u32;
    ||| 0x30 <= u <= 0x39
    ||| 0x41 <= u <= 0x5A
    ||| 0x61 <= u <= 0x7A
}

/// Whether `c` is the lower-case ASCII letter `letter` in any case. Case is
/// folded as Unicode's simple case folding does: besides the two ASCII
/// cases, the long s (U+017F) stands for `s` and the Kelvin sign (U+212A)
/// for `k`.
pub open spec fn is_letter(c: char, letter: char) -> bool {
    let u = c as u32;
    let l = letter as u32;
    ||| u == l
    ||| u + 0x20 == l
    ||| l == 0x73 && u == 0x17F
    ||| l == 0x6B && u == 0x212A
}

/// The first place at or after `from` where `text` holds no white space, or
/// the length of `text` where there is none.
pub open spec fn skip_white_space(text: Seq<char>, from: int) -> int
    decreases text.len() - from,
{
    if 0 <= from < text.len() && is_white_space(text[from]) {
        skip_white_space(text, from + 1)
    } else {
        from
    }
}

/// The end of `text` once the white space that stands just before `to`, and
/// not before `from`, is left out.
pub open spec fn drop_white_space(text: Seq<char>, from: int, to: int) -> int
    decreases to - from,
{
    if from < to <= text.len() && is_white_space(text[to - 1]) {
        drop_white_space(text, from, to - 1)
    } else {
        to
    }
}

/// `text` without the white space at its two ends.
pub open spec fn spec_trim(text: Seq<char>) -> Seq<char> {
    let start = skip_white_space(text, 0);
    let end = drop_white_space(text, start, text.len() as int);
    text.subrange(start, end)
}

/// Whether `line` begins with `keyword`, a word of lower-case ASCII letters,
/// in any case.
pub open spec fn has_keyword(line: Seq<char>, keyword: Seq<char>) -> bool {
    &&& keyword.len() <= line.len()
    &&& forall|i: int| 0 <= i < keyword.len() ==> is_letter(#[trigger] line[i], keyword[i])
}

/// Whether `line` is `keyword`, in any case, and nothing more.
pub open spec fn is_keyword(line: Seq<char>, keyword: Seq<char>) -> bool {
    line.len() == keyword.len() && has_keyword(line, keyword)
}

/// What follows `keyword` and one space in `line`, where `line` begins so.
pub open spec fn argument_of(line: Seq<char>, keyword: Seq<char>) -> Option<Seq<char>> {
    if has_keyword(line, keyword) && keyword.len() < line.len() && line[keyword.len() as int]
        == ' ' {
        Some(line.skip(keyword.len() as int + 1))
    } else {
        None
    }
}

/// Whether `text` is one or more ASCII letters and digits.
pub open spec fn is_word(text: Seq<char>) -> bool {
    &&& text.len() > 0
    &&& forall|i: int| 0 <= i < text.len() ==> is_alphanumeric(#[trigger] text[i])
}

/// Whether `text` is one or more characters, none of them a line feed.
pub open spec fn is_value(text: Seq<char>) -> bool {
    &&& text.len() > 0
    &&& forall|i: int| 0 <= i < text.len() ==> #[trigger] text[i] != '\n'
}

/// The first place at or after `from` where `text` holds no ASCII letter or
/// digit, or the length of `text` where there is none.
pub open spec fn word_end(text: Seq<char>, from: int) -> int
    decreases text.len() - from,
{
    if 0 <= from < text.len() && is_alphanumeric(text[from]) {
        word_end(text, from + 1)
    } else {
        from
    }
}

/// Whether `line` is the command that ends a connection: `exit`.
pub open spec fn spec_is_exit(line: Seq<char>) -> bool {
    is_keyword(line, "exit"@)
}

/// Whether `line` is the command `ping` without a value.
pub open spec fn spec_is_ping(line: Seq<char>) -> bool {
    is_keyword(line, "ping"@)
}

/// Whether `line` is the word that ends a subscription, letter for letter.
pub open spec fn spec_is_unsubscribe(line: Seq<char>) -> bool {
    line == "unsubscribe"@
}

/// The value of `ping <value>`: all that follows the first space.
pub open spec fn ping_value(line: Seq<char>) -> Option<Seq<char>> {
    match argument_of(line, "ping"@) {
        Some(value) if is_value(value) => Some(value),
        _ => None,
    }
}

/// The key of `get <key>`.
pub open spec fn get_key(line: Seq<char>) -> Option<Seq<char>> {
    match argument_of(line, "get"@) {
        Some(key) if is_word(key) => Some(key),
        _ => None,
    }
}

/// The key and the value of `set <key> <value>`: the key is the letters and
/// digits up to the next space, the value all that follows that space.
pub open spec fn set_pair(line: Seq<char>) -> Option<(Seq<char>, Seq<char>)> {
    match argument_of(line, "set"@) {
        Some(rest) => {
            let end = word_end(rest, 0);
            if 0 < end < rest.len() && rest[end] == ' ' && is_value(rest.skip(end + 1)) {
                Some((rest.take(end), rest.skip(end + 1)))
            } else {
                None
            }
        },
        None => None,
    }
}

/// The topic of `subscribe <topic>`.
pub open spec fn subscribe_topic(line: Seq<char>) -> Option<Seq<char>> {
    match argument_of(line, "subscribe"@) {
        Some(topic) if is_word(topic) => Some(topic),
        _ => None,
    }
}

/// What a trimmed line asks for on a connection without a subscription. The
/// forms are tried in this order, and the first that fits decides.
pub open spec fn classify(line: Seq<char>) -> NonSubscriptionCmd {
    if spec_is_exit(line) {
        NonSubscriptionCmd::Exit
    } else if spec_is_ping(line) {
        NonSubscriptionCmd::Ping
    } else if let Some(value) = ping_value(line) {
        NonSubscriptionCmd::PingValue(encode_utf8(value))
    } else if let Some(key) = get_key(line) {
        NonSubscriptionCmd::Get(key)
    } else if let Some((key, value)) = set_pair(line) {
        NonSubscriptionCmd::SetValue(key, encode_utf8(value))
    } else if let Some(topic) = subscribe_topic(line) {
        NonSubscriptionCmd::Subscribe(topic)
    } else {
        NonSubscriptionCmd::Other
    }
}

/// What `text` asks for on a connection without a subscription.
pub open spec fn spec_parse_non_subscription(text: Seq<char>) -> NonSubscriptionCmd {
    classify(spec_trim(text))
}

/// What the input `command`, read as `text`, asks for on a connection with
/// a subscription: to end it, or to publish the input as it came.
pub open spec fn spec_parse_subscription(text: Seq<char>, command: Seq<u8>) -> SubscriptionCmd {
    if spec_is_unsubscribe(spec_trim(text)) {
        SubscriptionCmd::Unsubscribe
    } else {
        SubscriptionCmd::Publish(command)
    }
}

/// What `String::from_utf8_lossy` makes of `bytes`: their text, with each
/// run that is not UTF-8 replaced by U+FFFD.
pub uninterp spec fn utf8_lossy(bytes: Seq<u8>) -> Seq<char>;

/// Reads `bytes` as text with `String::from_utf8_lossy`. Taken on trust:
/// the text is what that function makes of the bytes, and where the bytes
/// are UTF-8 it is the text that they encode.
#[verifier::external_body]
fn decode_lossy(bytes: &Vec<u8>) -> (text: String)
    ensures
        text@ == utf8_lossy(bytes@),
        valid_utf8(bytes@) ==> text@ == decode_utf8(bytes@),
{
    String::from_utf8_lossy(bytes).into_owned()
}

/// The characters of `text`, one by one.
fn chars_of(text: &str) -> (chars: Vec<char>)
    ensures
        chars@ == text@,
{
    let mut chars: Vec<char> = Vec::new();
    for c in it: text.chars()
        invariant
            chars@ == it.seq().take(it.index() as int),
            it.seq() == text@,
    {
        chars.push(c);
    }
    chars
}

fn char_is_white_space(c: char) -> (b: bool)
    ensures
        b == is_white_space(c),
{
    let u: u32 = c as u32;
    (0x09 <= u && u <= 0x0D) || u == 0x20 || u == 0x85 || u == 0xA0 || u == 0x1680 || (0x2000 <= u
        && u <= 0x200A) || u == 0x2028 || u == 0x2029 || u == 0x202F || u == 0x205F || u
        == 0x3000
}

fn char_is_alphanumeric(c: char) -> (b: bool)
    ensures
        b == is_alphanumeric(c),
{
    let u: u32 = c as u32;
    (0x30 <= u && u <= 0x39) || (0x41 <= u && u <= 0x5A) || (0x61 <= u && u <= 0x7A)
}

fn char_is_letter(c: char, letter: char) -> (b: bool)
    ensures
        b == is_letter(c, letter),
{
    let u: u32 = c as u32;
    let l: u32 = letter as u32;
    u == l || (l >= 0x20 && u == l - 0x20) || (l == 0x73 && u == 0x17F) || (l == 0x6B && u
        == 0x212A)
}

/// `text` without the white space at its two ends.
pub fn trim(text: &str) -> (trimmed: &str)
    ensures
        trimmed@ == spec_trim(text@),
{
    let chars = chars_of(text);
    let mut start: usize = 0;
    while start < chars.len() && char_is_white_space(chars[start])
        invariant
            start <= chars@.len(),
            skip_white_space(chars@, 0) == skip_white_space(chars@, start as int),
        decreases chars@.len() - start,
    {
        start = start + 1;
    }
    let mut end: usize = chars.len();
    while start < end && char_is_white_space(chars[end - 1])
        invariant
            start <= end <= chars@.len(),
            drop_white_space(chars@, start as int, chars@.len() as int) == drop_white_space(
                chars@,
                start as int,
                end as int,
            ),
        decreases end - start,
    {
        end = end - 1;
    }
    text.substring_char(start, end)
}

/// Whether `chars` begins with `keyword` in any case.
fn starts_with_keyword(chars: &Vec<char>, keyword: &str) -> (b: bool)
    ensures
        b == has_keyword(chars@, keyword@),
{
    let length: usize = keyword.unicode_len();
    if chars.len() < length {
        return false;
    }
    let mut i: usize = 0;
    while i < length
        invariant
            i <= length == keyword@.len() <= chars@.len(),
            forall|j: int| 0 <= j < i ==> is_letter(#[trigger] chars@[j], keyword@[j]),
        decreases length - i,
    {
        if !char_is_letter(chars[i], keyword.get_char(i)) {
            return false;
        }
        i = i + 1;
    }
    true
}

/// Whether `chars` is `text`, letter for letter.
fn equals_text(chars: &Vec<char>, text: &str) -> (b: bool)
    ensures
        b == (chars@ == text@),
{
    let length: usize = text.unicode_len();
    if chars.len() != length {
        return false;
    }
    let mut i: usize = 0;
    while i < length
        invariant
            i <= length == text@.len() == chars@.len(),
            forall|j: int| 0 <= j < i ==> chars@[j] == text@[j],
        decreases length - i,
    {
        if chars[i] != text.get_char(i) {
            return false;
        }
        i = i + 1;
    }
    assert(chars@ =~= text@);
    true
}

/// Where the argument of `keyword` begins in `chars`, if `chars` begins
/// with `keyword` and a space.
fn argument_start(chars: &Vec<char>, keyword: &str) -> (start: Option<usize>)
    ensures
        start is Some <==> argument_of(chars@, keyword@) is Some,
        start matches Some(at) ==> at == keyword@.len() + 1 && at <= chars@.len()
            && argument_of(chars@, keyword@) == Some(chars@.skip(at as int)),
{
    if !starts_with_keyword(chars, keyword) {
        return None;
    }
    let length: usize = keyword.unicode_len();
    if length < chars.len() && chars[length] == ' ' {
        Some(length + 1)
    } else {
        None
    }
}

/// Whether `chars` from `from` on is one or more ASCII letters and digits.
fn is_word_from(chars: &Vec<char>, from: usize) -> (b: bool)
    requires
        from <= chars@.len(),
    ensures
        b == is_word(chars@.skip(from as int)),
{
    if from == chars.len() {
        return false;
    }
    let mut i: usize = from;
    while i < chars.len()
        invariant
            from <= i <= chars@.len(),
            forall|j: int| from <= j < i ==> is_alphanumeric(#[trigger] chars@[j]),
        decreases chars@.len() - i,
    {
        if !char_is_alphanumeric(chars[i]) {
            assert(chars@.skip(from as int)[i - from] == chars@[i as int]);
            return false;
        }
        i = i + 1;
    }
    assert forall|j: int| 0 <= j < chars@.skip(from as int).len() implies is_alphanumeric(
        #[trigger] chars@.skip(from as int)[j],
    ) by {
        assert(chars@.skip(from as int)[j] == chars@[from + j]);
    }
    true
}

/// Whether `chars` from `from` on is one or more characters, none of them a
/// line feed.
fn is_value_from(chars: &Vec<char>, from: usize) -> (b: bool)
    requires
        from <= chars@.len(),
    ensures
        b == is_value(chars@.skip(from as int)),
{
    if from == chars.len() {
        return false;
    }
    let mut i: usize = from;
    while i < chars.len()
        invariant
            from <= i <= chars@.len(),
            forall|j: int| from <= j < i ==> #[trigger] chars@[j] != '\n',
        decreases chars@.len() - i,
    {
        if chars[i] == '\n' {
            assert(chars@.skip(from as int)[i - from] == chars@[i as int]);
            return false;
        }
        i = i + 1;
    }
    assert forall|j: int| 0 <= j < chars@.skip(from as int).len() implies #[trigger] chars@.skip(
        from as int,
    )[j] != '\n' by {
        assert(chars@.skip(from as int)[j] == chars@[from + j]);
    }
    true
}

/// A word ends at the same place in a text and in what is left of the text
/// once its beginning is cut off.
proof fn lemma_word_end_skip(text: Seq<char>, cut: int, from: int)
    requires
        0 <= cut <= text.len(),
        0 <= from,
    ensures
        word_end(text.skip(cut), from) + cut == word_end(text, cut + from),
    decreases text.len() - cut - from,
{
    let rest = text.skip(cut);
    if from < rest.len() {
        assert(rest[from] == text[cut + from]);
        if is_alphanumeric(rest[from]) {
            lemma_word_end_skip(text, cut, from + 1);
        }
    }
}

/// Where the word that begins at `from` in `chars` ends.
fn find_word_end(chars: &Vec<char>, from: usize) -> (end: usize)
    requires
        from <= chars@.len(),
    ensures
        end == word_end(chars@, from as int),
        from <= end <= chars@.len(),
{
    let mut end: usize = from;
    while end < chars.len() && char_is_alphanumeric(chars[end])
        invariant
            from <= end <= chars@.len(),
            word_end(chars@, from as int) == word_end(chars@, end as int),
        decreases chars@.len() - end,
    {
        end = end + 1;
    }
    end
}

/// Where in `chars` the key of `set <key> <value>` begins and ends and the
/// value begins, if `chars` is of that form.
fn set_bounds(chars: &Vec<char>) -> (bounds: Option<(usize, usize, usize)>)
    ensures
        bounds is Some <==> set_pair(chars@) is Some,
        bounds matches Some((key_start, key_end, value_start)) ==> {
            &&& key_start <= key_end < value_start <= chars@.len()
            &&& set_pair(chars@) == Some(
                (
                    chars@.subrange(key_start as int, key_end as int),
                    chars@.skip(value_start as int),
                ),
            )
        },
{
    match argument_start(chars, "set") {
        None => None,
        Some(start) => {
            let end = find_word_end(chars, start);
            let ghost rest = chars@.skip(start as int);
            proof {
                lemma_word_end_skip(chars@, start as int, 0);
            }
            if start < end && end < chars.len() && chars[end] == ' ' && is_value_from(
                chars,
                end + 1,
            ) {
                proof {
                    assert(rest.skip(end - start + 1) =~= chars@.skip(end + 1));
                    assert(rest.take(end - start) =~= chars@.subrange(start as int, end as int));
                }
                Some((start, end, end + 1))
            } else {
                proof {
                    if start < end && end < chars@.len() {
                        assert(rest[end - start] == chars@[end as int]);
                        assert(rest.skip(end - start + 1) =~= chars@.skip(end + 1));
                    }
                }
                None
            }
        },
    }
}

/// Whether `command` is the command that ends a connection.
pub fn is_exit(command: &str) -> (b: bool)
    ensures
        b == spec_is_exit(command@),
{
    let chars = chars_of(command);
    chars.len() == "exit".unicode_len() && starts_with_keyword(&chars, "exit")
}

/// Whether `command` is `ping` without a value.
pub fn is_ping(command: &str) -> (b: bool)
    ensures
        b == spec_is_ping(command@),
{
    let chars = chars_of(command);
    chars.len() == "ping".unicode_len() && starts_with_keyword(&chars, "ping")
}

/// Whether `command` is `ping` with a value.
pub fn is_ping_value(command: &str) -> (b: bool)
    ensures
        b == ping_value(command@) is Some,
{
    let chars = chars_of(command);
    match argument_start(&chars, "ping") {
        Some(start) => is_value_from(&chars, start),
        None => false,
    }
}

/// The value of `ping <value>` as bytes, if `command` is of that form.
pub fn extract_ping_with_value(command: &str) -> (value: Option<Vec<u8>>)
    ensures
        value is Some <==> ping_value(command@) is Some,
        value matches Some(bytes) ==> bytes@ == encode_utf8(ping_value(command@)->0),
{
    let chars = chars_of(command);
    match argument_start(&chars, "ping") {
        Some(start) => {
            if is_value_from(&chars, start) {
                let value = command.substring_char(start, chars.len());
                assert(value@ =~= chars@.skip(start as int));
                Some(value.as_bytes_vec())
            } else {
                None
            }
        },
        None => None,
    }
}

/// Whether `command` is `get` with a key.
pub fn is_get(command: &str) -> (b: bool)
    ensures
        b == get_key(command@) is Some,
{
    let chars = chars_of(command);
    match argument_start(&chars, "get") {
        Some(start) => is_word_from(&chars, start),
        None => false,
    }
}

/// The key of `get <key>`.
pub fn extract_get(command: &str) -> (key: &str)
    requires
        get_key(command@) is Some,
    ensures
        Some(key@) == get_key(command@),
{
    let chars = chars_of(command);
    proof {
        reveal_strlit("get");
    }
    let key = command.substring_char(4, chars.len());
    assert(key@ =~= chars@.skip(4));
    key
}

/// Whether `command` is `set` with a key and a value.
pub fn is_set(command: &str) -> (b: bool)
    ensures
        b == set_pair(command@) is Some,
{
    let chars = chars_of(command);
    set_bounds(&chars).is_some()
}

/// The key of `set <key> <value>`, and the value as bytes.
pub fn extract_set(command: &str) -> (pair: (&str, Vec<u8>))
    requires
        set_pair(command@) is Some,
    ensures
        set_pair(command@) matches Some((key, value)) && pair.0@ == key && pair.1@ == encode_utf8(
            value,
        ),
{
    let chars = chars_of(command);
    match set_bounds(&chars) {
        Some((key_start, key_end, value_start)) => {
            let key = command.substring_char(key_start, key_end);
            let value = command.substring_char(value_start, chars.len());
            assert(value@ =~= chars@.skip(value_start as int));
            (key, value.as_bytes_vec())
        },
        None => {
            proof {
                assert(false);
            }
            (command, Vec::new())
        },
    }
}

/// Whether `command` is `subscribe` with a topic.
pub fn is_subscribe(command: &str) -> (b: bool)
    ensures
        b == subscribe_topic(command@) is Some,
{
    let chars = chars_of(command);
    match argument_start(&chars, "subscribe") {
        Some(start) => is_word_from(&chars, start),
        None => false,
    }
}

/// The topic of `subscribe <topic>`.
pub fn extract_subscribe(command: &str) -> (topic: &str)
    requires
        subscribe_topic(command@) is Some,
    ensures
        Some(topic@) == subscribe_topic(command@),
{
    let chars = chars_of(command);
    proof {
        reveal_strlit("subscribe");
    }
    let topic = command.substring_char(10, chars.len());
    assert(topic@ =~= chars@.skip(10));
    topic
}

/// Whether `command` is the word that ends a subscription.
pub fn is_unsubscribe(command: &str) -> (b: bool)
    ensures
        b == spec_is_unsubscribe(command@),
{
    let chars = chars_of(command);
    equals_text(&chars, "unsubscribe")
}

/// What `text` asks for on a connection without a subscription.
pub fn parse_non_subscription_text(text: &str) -> (cmd: NonSubscriptionCmdType)
    ensures
        cmd@ == spec_parse_non_subscription(text@),
{
    let command_str = trim(text);
    if is_exit(command_str) {
        NonSubscriptionCmdType::Exit
    } else if is_ping(command_str) {
        NonSubscriptionCmdType::Ping
    } else if is_ping_value(command_str) {
        match extract_ping_with_value(command_str) {
            Some(value) => NonSubscriptionCmdType::PingValue(value),
            None => NonSubscriptionCmdType::PingValue(Vec::new()),
        }
    } else if is_get(command_str) {
        let key = extract_get(command_str);
        NonSubscriptionCmdType::Get(key.to_owned())
    } else if is_set(command_str) {
        let (key, value) = extract_set(command_str);
        NonSubscriptionCmdType::SetValue(key.to_owned(), value)
    } else if is_subscribe(command_str) {
        let topic = extract_subscribe(command_str);
        NonSubscriptionCmdType::Subscribe(topic.to_owned())
    } else {
        NonSubscriptionCmdType::Other
    }
}

/// What the input `command`, read as `text`, asks for on a connection with
/// a subscription.
pub fn parse_subscription_text(text: &str, command: Vec<u8>) -> (cmd: SubscriptionCmdType)
    ensures
        cmd@ == spec_parse_subscription(text@, command@),
{
    let command_str = trim(text);
    if is_unsubscribe(command_str) {
        SubscriptionCmdType::Unsubscribe
    } else {
        SubscriptionCmdType::Publish(command)
    }
}

/// What the input `command` asks for on a connection without a
/// subscription.
pub fn parse_non_subscription_command(command: Vec<u8>) -> (cmd: NonSubscriptionCmdType)
    ensures
        cmd@ == spec_parse_non_subscription(utf8_lossy(command@)),
        valid_utf8(command@) ==> cmd@ == spec_parse_non_subscription(decode_utf8(command@)),
{
    let command_str = decode_lossy(&command);
    parse_non_subscription_text(command_str.as_str())
}

/// What the input `command` asks for on a connection with a subscription.
pub fn parse_subscription_command(command: Vec<u8>) -> (cmd: SubscriptionCmdType)
    ensures
        cmd@ == spec_parse_subscription(utf8_lossy(command@), command@),
        valid_utf8(command@) ==> cmd@ == spec_parse_subscription(
            decode_utf8(command@),
            command@,
        ),
{
    let command_str = decode_lossy(&command);
    parse_subscription_text(command_str.as_str(), command)
}

} // verus!
