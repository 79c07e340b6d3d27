//! Requests and replies: what the dispatcher reads of a JSON request, what a reply
//! holds, and the two calls into `serde_json` that turn text into the one and the
//! other into text.

use vstd::prelude::*;
use crate::text::{
    copy_of, decode_text, first_where, lemma_first_where_is, same_text, text_of_bytes, texts,
};

verus! {

/// A member of a request, as far as the dispatcher tells members apart.
#[derive(Clone, Debug, PartialEq, Eq)]
pub enum Field {
    /// A JSON string.
    Text(String),
    /// `true` or `false`.
    Flag(bool),
    /// A number, an array, an object or `null`.
    Other,
}

/// The view of a `Field`.
pub enum FieldView {
    Text(Seq<char>),
    Flag(bool),
    Other,
}

impl View for Field {
    type V = FieldView;

    open spec fn view(&self) -> FieldView {
        match self {
            Field::Text(text) => FieldView::Text(text@),
            Field::Flag(flag) => FieldView::Flag(*flag),
            Field::Other => FieldView::Other,
        }
    }
}

/// A request as it came off the wire.
#[derive(Clone, Debug, PartialEq, Eq)]
pub enum Message {
    /// A JSON object with its members.
    Object(Vec<(String, Field)>),
    /// Any other JSON value.
    Other,
}

/// The view of a `Message`.
pub enum MessageView {
    Object(Seq<(Seq<char>, FieldView)>),
    Other,
}

/// The members of a request, each name and value by its view.
pub open spec fn members(fields: Seq<(String, Field)>) -> Seq<(Seq<char>, FieldView)> {
    Seq::new(fields.len(), |i: int| (fields[i].0@, fields[i].1@))
}

impl View for Message {
    type V = MessageView;

    open spec fn view(&self) -> MessageView {
        match self {
            Message::Object(fields) => MessageView::Object(members(fields@)),
            Message::Other => MessageView::Other,
        }
    }
}

/// The predicate that holds of the members called `key`.
pub open spec fn keyed(key: Seq<char>) -> spec_fn((Seq<char>, FieldView)) -> bool {
    |member: (Seq<char>, FieldView)| member.0 == key
}

/// The first member called `key`.
pub open spec fn member(fields: Seq<(Seq<char>, FieldView)>, key: Seq<char>) -> Option<
    FieldView,
> {
    let at = first_where(fields, keyed(key));
    if at < fields.len() {
        Some(fields[at].1)
    } else {
        None
    }
}

/// The text of the member `key`, if there is such a member and it is a string.
pub open spec fn text_member(fields: Seq<(Seq<char>, FieldView)>, key: Seq<char>) -> Option<
    Seq<char>,
> {
    match member(fields, key) {
        Some(FieldView::Text(text)) => Some(text),
        _ => None,
    }
}

/// The text of the member `key`; the empty text where it is missing or no string.
pub open spec fn text_or_empty(fields: Seq<(Seq<char>, FieldView)>, key: Seq<char>) -> Seq<
    char,
> {
    match text_member(fields, key) {
        Some(text) => text,
        None => Seq::empty(),
    }
}

/// The member `key` as a flag; `false` where it is missing or no boolean.
pub open spec fn flag_or_false(fields: Seq<(Seq<char>, FieldView)>, key: Seq<char>) -> bool {
    member(fields, key) == Some(FieldView::Flag(true))
}

/// Finds a member by its name.
pub fn get<'a>(fields: &'a Vec<(String, Field)>, key: &str) -> (found: Option<&'a Field>)
    ensures
        match found {
            Some(field) => member(members(fields@), key@) == Some(field@),
            None => member(members(fields@), key@) is None,
        },
{
    let mut at: usize = 0;
    while at < fields.len()
        invariant
            at <= fields.len(),
            forall|i: int| 0 <= i < at ==> !keyed(key@)(#[trigger] members(fields@)[i]),
        decreases fields.len() - at,
    {
        if same_text(fields[at].0.as_str(), key) {
            proof {
                lemma_first_where_is(members(fields@), keyed(key@), at as int);
            }
            return Some(&fields[at].1);
        }
        at += 1;
    }
    proof {
        lemma_first_where_is(members(fields@), keyed(key@), at as int);
    }
    None
}

/// Reads a member that should be a string.
pub fn get_text(fields: &Vec<(String, Field)>, key: &str) -> (found: Option<String>)
    ensures
        match found {
            Some(text) => text_member(members(fields@), key@) == Some(text@),
            None => text_member(members(fields@), key@) is None,
        },
{
    match get(fields, key) {
        Some(Field::Text(text)) => Some(copy_of(text.as_str())),
        _ => None,
    }
}

/// Reads a member that should be a string, and settles for the empty text.
pub fn get_text_or_empty(fields: &Vec<(String, Field)>, key: &str) -> (text: String)
    ensures
        text@ == text_or_empty(members(fields@), key@),
{
    match get_text(fields, key) {
        Some(text) => text,
        None => String::new(),
    }
}

/// Reads a member that should be a boolean, and settles for `false`.
pub fn get_flag(fields: &Vec<(String, Field)>, key: &str) -> (flag: bool)
    ensures
        flag == flag_or_false(members(fields@), key@),
{
    match get(fields, key) {
        Some(Field::Flag(flag)) => *flag,
        _ => false,
    }
}

/// A value inside a reply.
#[derive(Clone, Debug, PartialEq, Eq)]
pub enum Item {
    Text(String),
    Number(u32),
    Flag(bool),
    List(Vec<String>),
}

/// The view of an `Item`.
pub enum ItemView {
    Text(Seq<char>),
    Number(u32),
    Flag(bool),
    List(Seq<Seq<char>>),
}

impl View for Item {
    type V = ItemView;

    open spec fn view(&self) -> ItemView {
        match self {
            Item::Text(text) => ItemView::Text(text@),
            Item::Number(number) => ItemView::Number(*number),
            Item::Flag(flag) => ItemView::Flag(*flag),
            Item::List(list) => ItemView::List(texts(list@)),
        }
    }
}

/// A reply: the members of one JSON object, in the order in which they were added.
#[derive(Clone, Debug, PartialEq, Eq)]
pub struct Response {
    pub fields: Vec<(String, Item)>,
}

/// The members of a reply, each name and value by its view.
pub open spec fn items(fields: Seq<(String, Item)>) -> Seq<(Seq<char>, ItemView)> {
    Seq::new(fields.len(), |i: int| (fields[i].0@, fields[i].1@))
}

impl View for Response {
    type V = Seq<(Seq<char>, ItemView)>;

    open spec fn view(&self) -> Seq<(Seq<char>, ItemView)> {
        items(self.fields@)
    }
}

/// The reply that names a command and says nothing else.
pub open spec fn reply(command: Seq<char>) -> Seq<(Seq<char>, ItemView)> {
    seq![("cmd"@, ItemView::Text(command))]
}

/// The reply that names a command and gives a code.
pub open spec fn reply_with_code(command: Seq<char>, code: u32) -> Seq<(Seq<char>, ItemView)> {
    reply(command).push(("code"@, ItemView::Number(code)))
}

/// The code of a reply: that of its first member called `code`, if that is a number.
pub open spec fn code_of(response: Seq<(Seq<char>, ItemView)>) -> Option<u32> {
    let at = first_where(response, |member: (Seq<char>, ItemView)| member.0 == "code"@);
    if at < response.len() {
        match response[at].1 {
            ItemView::Number(code) => Some(code),
            _ => None,
        }
    } else {
        None
    }
}

impl Response {
    /// Starts the reply to a command.
    pub fn new(command: &str) -> (response: Response)
        ensures
            response@ == reply(command@),
    {
        let mut fields: Vec<(String, Item)> = Vec::new();
        fields.push((copy_of("cmd"), Item::Text(copy_of(command))));
        let response = Response { fields };
        assert(response@ =~= reply(command@));
        response
    }

    /// Starts the reply to a command with the code of its outcome.
    pub fn with_code(command: &str, code: u32) -> (response: Response)
        ensures
            response@ == reply_with_code(command@, code),
    {
        let mut response = Response::new(command);
        response.put("code", Item::Number(code));
        response
    }

    /// Adds a member at the end.
    pub fn put(&mut self, key: &str, item: Item)
        ensures
            final(self)@ == old(self)@.push((key@, item@)),
    {
        self.fields.push((copy_of(key), item));
        assert(self@ =~= old(self)@.push((key@, item@)));
    }
}

/// The error of `serde_json::from_str`, which is handed on and never looked into.
#[verifier::external_type_specification]
#[verifier::external_body]
pub struct ExJsonError(serde_json::Error);

/// What `serde_json::from_str` makes of a text, read as a request: nothing if the
/// text is no JSON.
pub uninterp spec fn parsed_json(text: Seq<char>) -> Option<MessageView>;

/// The text that `serde_json` writes for an object with the given members.
pub uninterp spec fn json_text(members: Seq<(Seq<char>, ItemView)>) -> Seq<char>;

/// `serde_json::from_str` at the type `serde_json::Value`. The value is handed on as
/// a `Message`: an object member by member, strings and booleans with what they
/// hold. Nothing is claimed of the result but that it depends on the text alone.
#[verifier::external_body]
fn parse_json(text: &str) -> (parsed: Result<Message, serde_json::Error>)
    ensures
        parsed is Ok <==> parsed_json(text@) is Some,
        parsed matches Ok(message) ==> parsed_json(text@) == Some(message@),
{
    Ok(match serde_json::from_str::<serde_json::Value>(text)? {
        serde_json::Value::Object(map) => Message::Object(
            map.into_iter().map(|(key, value)| (key, match value {
                serde_json::Value::String(text) => Field::Text(text),
                serde_json::Value::Bool(flag) => Field::Flag(flag),
                _ => Field::Other,
            })).collect(),
        ),
        _ => Message::Other,
    })
}

/// `to_string` of a `serde_json::Value`, on the object built by `serde_json::Map::insert`
/// from the members in their order. Nothing is claimed of the text but that it
/// depends on the members alone.
#[verifier::external_body]
fn render_json(fields: &Vec<(String, Item)>) -> (rendered: String)
    ensures
        rendered@ == json_text(items(fields@)),
{
    let mut object = serde_json::Map::new();
    for (key, item) in fields {
        object.insert(key.clone(), match item {
            Item::Text(text) => serde_json::Value::from(text.as_str()),
            Item::Number(number) => serde_json::Value::from(*number),
            Item::Flag(flag) => serde_json::Value::from(*flag),
            Item::List(list) => serde_json::Value::from(list.clone()),
        });
    }
    serde_json::Value::Object(object).to_string()
}

/// Why a payload is no request.
#[derive(Clone, Copy, Debug, PartialEq, Eq, Structural)]
pub enum MessageError {
    /// The payload is not well-formed UTF-8.
    NotText,
    /// The payload is text, but no JSON.
    NotJson,
}

/// The request that a payload holds.
pub open spec fn decoded_message(payload: Seq<u8>) -> Result<MessageView, MessageError> {
    match text_of_bytes(payload) {
        None => Err(MessageError::NotText),
        Some(text) => request_in(parsed_json(text)),
    }
}

/// The request that a parsed text holds.
pub open spec fn request_in(parsed: Option<MessageView>) -> Result<MessageView, MessageError> {
    match parsed {
        Some(message) => Ok(message),
        None => Err(MessageError::NotJson),
    }
}

/// Reads a request from the text of a payload.
pub fn parse_message(text: &str) -> (message: Result<Message, MessageError>)
    ensures
        match message {
            Ok(request) => request_in(parsed_json(text@)) == Ok::<MessageView, MessageError>(
                request@,
            ),
            Err(error) => request_in(parsed_json(text@)) == Err::<MessageView, MessageError>(
                error,
            ),
        },
{
    match parse_json(text) {
        Ok(request) => Ok(request),
        Err(_) => Err(MessageError::NotJson),
    }
}

/// Reads a request from the payload of a frame.
pub fn decode_message(payload: Vec<u8>) -> (message: Result<Message, MessageError>)
    ensures
        match message {
            Ok(request) => decoded_message(payload@) == Ok::<MessageView, MessageError>(
                request@,
            ),
            Err(error) => decoded_message(payload@) == Err::<MessageView, MessageError>(error),
        },
{
    match decode_text(payload) {
        Some(text) => parse_message(text.as_str()),
        None => Err(MessageError::NotText),
    }
}

/// Writes a reply as compact JSON.
pub fn render(response: &Response) -> (rendered: String)
    ensures
        rendered@ == json_text(response@),
{
    render_json(&response.fields)
}

} // verus!
