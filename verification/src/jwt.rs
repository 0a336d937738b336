//! Reading what a JSON web token says of its holder, without checking who signed it.

use crate::lists;
use crate::text;
use crate::text::said;
use base64::engine::general_purpose::URL_SAFE_NO_PAD;
use base64::Engine;
use vstd::prelude::*;

verus! {

/// What a token says of its holder.
#[derive(Debug, PartialEq, Eq)]
pub struct JwtClaims {
    pub account_id: Option<String>,
    pub email: Option<String>,
}

/// A JSON document.
#[derive(Debug, PartialEq, Eq)]
pub enum JsonValue {
    Null,
    Bool(bool),
    /// A number. Which one is not kept.
    Number,
    Text(String),
    Array(Vec<JsonValue>),
    Object(Vec<(String, JsonValue)>),
}

/// What a [`JsonValue`] says.
pub enum JsonView {
    Null,
    Bool(bool),
    Number,
    Text(Seq<char>),
    Array(Seq<JsonView>),
    Object(Seq<(Seq<char>, JsonView)>),
}

impl JsonValue {
    /// The document, as the contracts speak of it.
    pub open spec fn view(&self) -> JsonView
        decreases self,
    {
        match self {
            JsonValue::Null => JsonView::Null,
            JsonValue::Bool(value) => JsonView::Bool(*value),
            JsonValue::Number => JsonView::Number,
            JsonValue::Text(value) => JsonView::Text(value@),
            JsonValue::Array(elements) => JsonView::Array(
                Seq::new(
                    elements@.len(),
                    |i: int|
                        if 0 <= i < elements@.len() {
                            elements@[i].view()
                        } else {
                            arbitrary()
                        },
                ),
            ),
            JsonValue::Object(members) => JsonView::Object(
                Seq::new(
                    members@.len(),
                    |i: int|
                        if 0 <= i < members@.len() {
                            (members@[i].0@, members@[i].1.view())
                        } else {
                            arbitrary()
                        },
                ),
            ),
        }
    }
}

/// What the elements of an array say.
pub open spec fn element_views(elements: Seq<JsonValue>) -> Seq<JsonView> {
    Seq::new(elements.len(), |i: int| elements[i]@)
}

/// What the members of an object say.
pub open spec fn member_views(members: Seq<(String, JsonValue)>) -> Seq<(Seq<char>, JsonView)> {
    Seq::new(members.len(), |i: int| (members[i].0@, members[i].1@))
}

/// A document as serde_json holds it.
#[verifier::external_type_specification]
#[verifier::external_body]
pub struct ExValue(serde_json::Value);

/// What a document that serde_json holds is made of: its members in the order in which its map
/// is walked, without the values of its numbers.
pub uninterp spec fn json_tree(value: serde_json::Value) -> JsonView;

/// The JSON document that the bytes are, as serde_json reads them, or nothing where they are no
/// JSON.
pub uninterp spec fn json_document(bytes: Seq<u8>) -> Option<JsonView>;

/// Reads a document by `serde_json::from_slice`. Whether it is JSON, and what it says, is a
/// function of the bytes alone.
#[verifier::external_body]
fn parse(document: &Vec<u8>) -> (value: Option<serde_json::Value>)
    ensures
        match value {
            Some(value) => json_document(document@) == Some(json_tree(value)),
            None => json_document(document@) is None,
        },
{
    serde_json::from_slice(document).ok()
}

/// The topmost level of a document that serde_json holds.
enum JsonLevel<'a> {
    Null,
    Bool(bool),
    Number,
    Text(String),
    Array(Vec<&'a serde_json::Value>),
    Object(Vec<(String, &'a serde_json::Value)>),
}

impl<'a> JsonLevel<'a> {
    /// The document that has this topmost level.
    spec fn document(self) -> JsonView {
        match self {
            JsonLevel::Null => JsonView::Null,
            JsonLevel::Bool(value) => JsonView::Bool(value),
            JsonLevel::Number => JsonView::Number,
            JsonLevel::Text(value) => JsonView::Text(value@),
            JsonLevel::Array(elements) => JsonView::Array(
                Seq::new(elements@.len(), |i: int| json_tree(*elements@[i])),
            ),
            JsonLevel::Object(members) => JsonView::Object(
                Seq::new(members@.len(), |i: int| (members@[i].0@, json_tree(*members@[i].1))),
            ),
        }
    }
}

/// Tells the variants of `serde_json::Value` apart, and hands out what each holds: the elements of
/// an array in their order, and the members of an object in the order in which its map is walked.
/// The document is what is handed out, put together again.
#[verifier::external_body]
fn top_level(value: &serde_json::Value) -> (level: JsonLevel<'_>)
    ensures
        level.document() == json_tree(*value),
{
    match value {
        serde_json::Value::Null => JsonLevel::Null,
        serde_json::Value::Bool(value) => JsonLevel::Bool(*value),
        serde_json::Value::Number(_) => JsonLevel::Number,
        serde_json::Value::String(value) => JsonLevel::Text(value.clone()),
        serde_json::Value::Array(elements) => JsonLevel::Array(elements.iter().collect()),
        serde_json::Value::Object(members) => JsonLevel::Object(
            members.iter().map(|(name, value)| (name.clone(), value)).collect(),
        ),
    }
}

/// A document that serde_json holds, as the library's own.
fn taken_over(value: &serde_json::Value) -> (document: JsonValue)
    ensures
        document@ == json_tree(*value),
    decreases json_tree(*value),
{
    let level = top_level(value);
    match level {
        JsonLevel::Null => JsonValue::Null,
        JsonLevel::Bool(value) => JsonValue::Bool(value),
        JsonLevel::Number => JsonValue::Number,
        JsonLevel::Text(value) => JsonValue::Text(value),
        JsonLevel::Array(elements) => {
            let ghost tree = json_tree(*value);
            let mut taken: Vec<JsonValue> = Vec::new();
            let mut at: usize = 0;
            while at < elements.len()
                invariant
                    at <= elements@.len(),
                    taken@.len() == at,
                    tree == json_tree(*value),
                    tree is Array,
                    tree->Array_0.len() == elements@.len(),
                    forall|i: int|
                        0 <= i < elements@.len() ==> json_tree(*#[trigger] elements@[i])
                            == tree->Array_0[i],
                    forall|i: int|
                        0 <= i < at ==> #[trigger] taken@[i]@ == tree->Array_0[i],
                decreases elements@.len() - at,
            {
                let element: &serde_json::Value = elements[at];
                assert(json_tree(*elements@[at as int]) == tree->Array_0[at as int]);
                assert(decreases_to!(tree => tree->Array_0));
                assert(decreases_to!(tree->Array_0 => tree->Array_0[at as int]));
                taken.push(taken_over(element));
                at = at + 1;
            }
            let document = JsonValue::Array(taken);
            assert(document@->Array_0 =~= element_views(taken@));
            assert(element_views(taken@) =~= tree->Array_0);
            document
        },
        JsonLevel::Object(members) => {
            let ghost tree = json_tree(*value);
            let mut taken: Vec<(String, JsonValue)> = Vec::new();
            let mut at: usize = 0;
            while at < members.len()
                invariant
                    at <= members@.len(),
                    taken@.len() == at,
                    tree == json_tree(*value),
                    tree is Object,
                    tree->Object_0.len() == members@.len(),
                    forall|i: int|
                        0 <= i < members@.len() ==> (
                            (#[trigger] members@[i]).0@,
                            json_tree(*members@[i].1),
                        ) == tree->Object_0[i],
                    forall|i: int|
                        0 <= i < at ==> ((#[trigger] taken@[i]).0@, taken@[i].1@)
                            == tree->Object_0[i],
                decreases members@.len() - at,
            {
                let (name, member) = &members[at];
                assert((members@[at as int].0@, json_tree(*members@[at as int].1))
                    == tree->Object_0[at as int]);
                assert(decreases_to!(tree => tree->Object_0));
                assert(decreases_to!(tree->Object_0 => tree->Object_0[at as int]));
                assert(decreases_to!(tree->Object_0[at as int] => tree->Object_0[at as int].1));
                taken.push((name.clone(), taken_over(member)));
                at = at + 1;
            }
            let document = JsonValue::Object(taken);
            assert(document@->Object_0 =~= member_views(taken@));
            assert(member_views(taken@) =~= tree->Object_0);
            document
        },
    }
}

/// The JSON document that the bytes are, or nothing where they are no JSON.
pub fn read_json(document: &Vec<u8>) -> (read: Option<JsonValue>)
    ensures
        match read {
            Some(read) => json_document(document@) == Some(read@),
            None => json_document(document@) is None,
        },
{
    match parse(document) {
        Some(value) => Some(taken_over(&value)),
        None => None,
    }
}

/// The bytes that a text stands for in URL-safe base64 without padding, as base64 reads it, or
/// nothing where it is not well formed.
pub uninterp spec fn base64url_decoded(text: Seq<char>) -> Option<Seq<u8>>;

/// Decodes a text by the `decode` of `base64`'s `URL_SAFE_NO_PAD` engine. The result is a
/// function of the text alone.
#[verifier::external_body]
fn decode_base64url(text: &str) -> (bytes: Option<Vec<u8>>)
    ensures
        match bytes {
            Some(bytes) => base64url_decoded(text@) == Some(bytes@),
            None => base64url_decoded(text@) is None,
        },
{
    URL_SAFE_NO_PAD.decode(text).ok()
}

/// Says of a member of an object whether it has the given name.
pub open spec fn is_named(name: Seq<char>) -> spec_fn((Seq<char>, JsonView)) -> bool {
    |member: (Seq<char>, JsonView)| member.0 == name
}

impl JsonView {
    /// The value of the member with the given name. Only an object has any.
    pub open spec fn member(self, name: Seq<char>) -> Option<JsonView> {
        match self {
            JsonView::Object(members) => match lists::first_where(members, is_named(name)) {
                Some((_, value)) => Some(value),
                None => None,
            },
            _ => None,
        }
    }

    /// The first element. Only an array has one.
    pub open spec fn first_element(self) -> Option<JsonView> {
        match self {
            JsonView::Array(elements) if elements.len() > 0 => Some(elements[0]),
            _ => None,
        }
    }

    /// The text. Only a text has one.
    pub open spec fn text(self) -> Option<Seq<char>> {
        match self {
            JsonView::Text(value) => Some(value),
            _ => None,
        }
    }
}

/// What a document says that may be missing.
pub open spec fn held(document: Option<&JsonValue>) -> Option<JsonView> {
    match document {
        Some(document) => Some(document@),
        None => None,
    }
}

impl JsonValue {
    /// The value of the member with the given name.
    pub fn member(&self, name: &str) -> (value: Option<&JsonValue>)
        ensures
            held(value) == self@.member(name@),
    {
        match self {
            JsonValue::Object(members) => {
                let ghost all = member_views(members@);
                assert(self@->Object_0 =~= all);
                let mut at: usize = 0;
                while at < members.len()
                    invariant
                        at <= members@.len(),
                        all == member_views(members@),
                        self@ == JsonView::Object(all),
                        forall|i: int| 0 <= i < at ==> !is_named(name@)(#[trigger] all[i]),
                    decreases members@.len() - at,
                {
                    if text::same_text(members[at].0.as_str(), name) {
                        proof {
                            lists::first_where_at(all, is_named(name@), at as int);
                        }
                        return Some(&members[at].1);
                    }
                    at = at + 1;
                }
                proof {
                    lists::first_where_at(all, is_named(name@), at as int);
                }
                None
            },
            _ => None,
        }
    }

    /// The first element of an array.
    pub fn first_element(&self) -> (element: Option<&JsonValue>)
        ensures
            held(element) == self@.first_element(),
    {
        match self {
            JsonValue::Array(elements) => {
                assert(self@->Array_0 =~= element_views(elements@));
                if elements.len() > 0 {
                    Some(&elements[0])
                } else {
                    None
                }
            },
            _ => None,
        }
    }

    /// The text of a text.
    pub fn text(&self) -> (value: Option<String>)
        ensures
            said(value) == self@.text(),
    {
        match self {
            JsonValue::Text(value) => Some(value.clone()),
            _ => None,
        }
    }
}

/// The text that a document is, where there is one.
pub open spec fn text_of(document: Option<JsonView>) -> Option<Seq<char>> {
    match document {
        Some(document) => document.text(),
        None => None,
    }
}

/// The value of the member with the given name, where there is a document.
pub open spec fn member_of(document: Option<JsonView>, name: Seq<char>) -> Option<JsonView> {
    match document {
        Some(document) => document.member(name),
        None => None,
    }
}

/// The first element, where there is a document.
pub open spec fn first_element_of(document: Option<JsonView>) -> Option<JsonView> {
    match document {
        Some(document) => document.first_element(),
        None => None,
    }
}

fn read_text(document: Option<&JsonValue>) -> (value: Option<String>)
    ensures
        said(value) == text_of(held(document)),
{
    match document {
        Some(document) => document.text(),
        None => None,
    }
}

fn read_member<'a>(document: Option<&'a JsonValue>, name: &str) -> (value: Option<&'a JsonValue>)
    ensures
        held(value) == member_of(held(document), name@),
{
    match document {
        Some(document) => document.member(name),
        None => None,
    }
}

fn read_first_element(document: Option<&JsonValue>) -> (value: Option<&JsonValue>)
    ensures
        held(value) == first_element_of(held(document)),
{
    match document {
        Some(document) => document.first_element(),
        None => None,
    }
}

/// The first of three texts that is there.
pub open spec fn first_said(
    first: Option<Seq<char>>,
    second: Option<Seq<char>>,
    third: Option<Seq<char>>,
) -> Option<Seq<char>> {
    if first is Some {
        first
    } else if second is Some {
        second
    } else {
        third
    }
}

/// The account in a token: the token's own member, else that of the member of the service, else
/// the first of the organizations.
pub fn choose_account_id(
    own: Option<String>,
    of_service: Option<String>,
    of_organization: Option<String>,
) -> (account_id: Option<String>)
    ensures
        said(account_id) == first_said(said(own), said(of_service), said(of_organization)),
{
    if own.is_some() {
        own
    } else if of_service.is_some() {
        of_service
    } else {
        of_organization
    }
}

/// The account that the claims of a token name.
pub open spec fn account_of(claims: JsonView) -> Option<Seq<char>> {
    first_said(
        text_of(claims.member("chatgpt_account_id"@)),
        text_of(member_of(claims.member("https://api.openai.com/auth"@), "chatgpt_account_id"@)),
        text_of(member_of(first_element_of(claims.member("organizations"@)), "id"@)),
    )
}

/// The email address that the claims of a token name.
pub open spec fn email_of(claims: JsonView) -> Option<Seq<char>> {
    text_of(claims.member("email"@))
}

/// What the claims of a token say of its holder.
pub fn claims_in(claims: &JsonValue) -> (holder: JwtClaims)
    ensures
        said(holder.account_id) == account_of(claims@),
        said(holder.email) == email_of(claims@),
{
    let own = read_text(claims.member("chatgpt_account_id"));
    let of_service = read_text(
        read_member(claims.member("https://api.openai.com/auth"), "chatgpt_account_id"),
    );
    let of_organization = read_text(
        read_member(read_first_element(claims.member("organizations")), "id"),
    );
    JwtClaims {
        account_id: choose_account_id(own, of_service, of_organization),
        email: read_text(claims.member("email")),
    }
}

/// The second part of a token, between its first two dots.
pub open spec fn payload_of(jwt: Seq<char>) -> Option<Seq<char>> {
    let parts = text::split(jwt, text::is_char('.'));
    if parts.len() > 1 {
        Some(parts[1])
    } else {
        None
    }
}

/// The claims of a token, or nothing where the token is not well formed.
pub open spec fn claims_of_token(jwt: Seq<char>) -> Option<JsonView> {
    match payload_of(jwt) {
        Some(payload) => match base64url_decoded(payload) {
            Some(document) => json_document(document),
            None => None,
        },
        None => None,
    }
}

/// The account that a token names. A token that is not well formed names none.
pub open spec fn account_in_token(jwt: Seq<char>) -> Option<Seq<char>> {
    match claims_of_token(jwt) {
        Some(claims) => account_of(claims),
        None => None,
    }
}

/// The email address that a token names. A token that is not well formed names none.
pub open spec fn email_in_token(jwt: Seq<char>) -> Option<Seq<char>> {
    match claims_of_token(jwt) {
        Some(claims) => email_of(claims),
        None => None,
    }
}

/// What a token says of its holder. A token that is not well formed says nothing.
pub fn extract_jwt_claims(jwt: &str) -> (holder: JwtClaims)
    ensures
        said(holder.account_id) == account_in_token(jwt@),
        said(holder.email) == email_in_token(jwt@),
{
    let parts = text::split_text(jwt, text::Separator::Char('.'));
    assert(text::texts(parts@).len() == parts@.len());
    if parts.len() > 1 {
        if let Some(document) = decode_base64url(parts[1].as_str()) {
            if let Some(claims) = read_json(&document) {
                return claims_in(&claims);
            }
        }
    }
    JwtClaims { account_id: None, email: None }
}

proof fn split_keeps_pieces(text: Seq<char>, more: Seq<char>, separates: spec_fn(char) -> bool)
    ensures
        text::split(text, separates).len() > 0,
        text::split(text + more, separates).len() >= text::split(text, separates).len(),
        forall|i: int|
            0 <= i < text::split(text, separates).len() - 1 ==> #[trigger] text::split(
                text + more,
                separates,
            )[i] == text::split(text, separates)[i],
    decreases text.len() + more.len(),
{
    if text.len() > 0 {
        split_keeps_pieces(text.drop_last(), Seq::empty(), separates);
    }
    if more.len() == 0 {
        assert(text + more =~= text);
    } else {
        split_keeps_pieces(text, more.drop_last(), separates);
        assert((text + more).drop_last() =~= text + more.drop_last());
    }
}

proof fn split_extends_last_piece(
    text: Seq<char>,
    more: Seq<char>,
    separates: spec_fn(char) -> bool,
)
    requires
        forall|i: int| 0 <= i < more.len() ==> !separates(#[trigger] more[i]),
    ensures
        text::split(text, separates).len() > 0,
        text::split(text + more, separates) == text::split(text, separates).update(
            text::split(text, separates).len() - 1,
            text::split(text, separates).last() + more,
        ),
    decreases more.len(),
{
    split_keeps_pieces(text, more, separates);
    let pieces = text::split(text, separates);
    if more.len() == 0 {
        assert(text + more =~= text);
        assert(pieces.last() + more =~= pieces.last());
        assert(pieces.update(pieces.len() - 1, pieces.last() + more) =~= pieces);
    } else {
        let shorter = more.drop_last();
        assert forall|i: int| 0 <= i < shorter.len() implies !separates(#[trigger] shorter[i]) by {
            assert(shorter[i] == more[i]);
        }
        split_extends_last_piece(text, shorter, separates);
        assert((text + more).drop_last() =~= text + shorter);
        assert((text + more).last() == more.last());
        assert(!separates(more[more.len() - 1]));
        assert((pieces.last() + shorter).push(more.last()) =~= pieces.last() + more);
        assert(text::split(text + more, separates) =~= pieces.update(
            pieces.len() - 1,
            pieces.last() + more,
        ));
    }
}

/// What a token says is in its second part; neither what comes before nor what comes after it,
/// such as the signature, makes a difference.
pub proof fn payload_is_the_second_part(
    header: Seq<char>,
    payload: Seq<char>,
    signature: Seq<char>,
)
    requires
        !header.contains('.'),
        !payload.contains('.'),
    ensures
        payload_of(header + seq!['.'] + payload + seq!['.'] + signature) == Some(payload),
{
    let dot = text::is_char('.');
    assert forall|i: int| 0 <= i < header.len() implies !dot(#[trigger] header[i]) by {
        assert(header.contains(header[i]));
    }
    assert forall|i: int| 0 <= i < payload.len() implies !dot(#[trigger] payload[i]) by {
        assert(payload.contains(payload[i]));
    }
    let nothing = Seq::<char>::empty();
    split_extends_last_piece(nothing, header, dot);
    assert(nothing + header =~= header);
    let first = header.push('.');
    assert(first.drop_last() =~= header);
    assert(text::split(first, dot).len() == 2);
    split_extends_last_piece(first, payload, dot);
    let second = (first + payload).push('.');
    assert(second.drop_last() =~= first + payload);
    assert(nothing + payload =~= payload);
    assert(text::split(second, dot)[1] == payload);
    split_keeps_pieces(second, signature, dot);
    assert(header + seq!['.'] + payload + seq!['.'] + signature =~= second + signature);
}

impl JsonView {
    /// Whether the document is an object, and the given place in it holds the first member of that
    /// name, with this value.
    pub open spec fn has_at(self, at: int, name: Seq<char>, value: JsonView) -> bool {
        &&& self matches JsonView::Object(members)
        &&& 0 <= at < members.len()
        &&& members[at] == (name, value)
        &&& forall|i: int| 0 <= i < at ==> (#[trigger] members[i]).0 != name
    }

    /// Whether nothing in the document has that name.
    pub open spec fn lacks(self, name: Seq<char>) -> bool {
        self matches JsonView::Object(members) ==> forall|i: int|
            0 <= i < members.len() ==> (#[trigger] members[i]).0 != name
    }
}

/// A member is found by its name wherever it stands, and nothing is found where there is no such
/// member. Only arrays have a first element, and only texts say something.
pub proof fn members_are_found_by_name(
    document: JsonView,
    at: int,
    name: Seq<char>,
    value: JsonView,
)
    ensures
        document.has_at(at, name, value) ==> document.member(name) == Some(value),
        document.lacks(name) ==> document.member(name) is None,
        !(document is Object) ==> document.member(name) is None,
        (document matches JsonView::Array(elements) && elements.len() > 0)
            == document.first_element() is Some,
        document.first_element() matches Some(element) ==> element == document->Array_0[0],
        document.text() is Some == document is Text,
        document.text() matches Some(said) ==> document == JsonView::Text(said),
{
    if let JsonView::Object(members) = document {
        if document.has_at(at, name, value) {
            lists::first_where_at(members, is_named(name), at);
        }
        if document.lacks(name) {
            lists::first_where_at(members, is_named(name), members.len() as int);
        }
    }
}

/// The account is the one that the token names itself, as long as that is a text.
pub proof fn own_account_comes_first(claims: JsonView, at: int, account: Seq<char>)
    requires
        claims.has_at(at, "chatgpt_account_id"@, JsonView::Text(account)),
    ensures
        account_of(claims) == Some(account),
{
    members_are_found_by_name(
        claims,
        at,
        "chatgpt_account_id"@,
        JsonView::Text(account),
    );
}

/// Where the token does not name an account itself, what the service adds to it may.
pub proof fn account_of_the_service_comes_second(
    claims: JsonView,
    at: int,
    service: JsonView,
    within: int,
    account: Seq<char>,
)
    requires
        claims.lacks("chatgpt_account_id"@),
        claims.has_at(at, "https://api.openai.com/auth"@, service),
        service.has_at(within, "chatgpt_account_id"@, JsonView::Text(account)),
    ensures
        account_of(claims) == Some(account),
{
    members_are_found_by_name(claims, at, "chatgpt_account_id"@, service);
    members_are_found_by_name(claims, at, "https://api.openai.com/auth"@, service);
    members_are_found_by_name(
        service,
        within,
        "chatgpt_account_id"@,
        JsonView::Text(account),
    );
}

/// Where neither does, the account is that of the first organization.
pub proof fn account_of_an_organization_comes_last(
    claims: JsonView,
    at: int,
    organizations: Seq<JsonView>,
    within: int,
    account: Seq<char>,
)
    requires
        claims.lacks("chatgpt_account_id"@),
        claims.lacks("https://api.openai.com/auth"@),
        claims.has_at(at, "organizations"@, JsonView::Array(organizations)),
        organizations.len() > 0,
        organizations[0].has_at(within, "id"@, JsonView::Text(account)),
    ensures
        account_of(claims) == Some(account),
{
    let list = JsonView::Array(organizations);
    members_are_found_by_name(claims, at, "chatgpt_account_id"@, list);
    members_are_found_by_name(claims, at, "https://api.openai.com/auth"@, list);
    members_are_found_by_name(claims, at, "organizations"@, list);
    members_are_found_by_name(organizations[0], within, "id"@, JsonView::Text(account));
}

/// A token that names none of these has no account, and the email address is the one that it
/// names itself, whatever else it says.
pub proof fn nothing_is_made_up(claims: JsonView, at: int, value: JsonView)
    ensures
        claims.lacks("chatgpt_account_id"@) && claims.lacks("https://api.openai.com/auth"@)
            && claims.lacks("organizations"@) ==> account_of(claims) is None,
        claims.lacks("email"@) ==> email_of(claims) is None,
        claims.has_at(at, "email"@, value) ==> email_of(claims) == (match value {
            JsonView::Text(email) => Some(email),
            _ => None,
        }),
{
    members_are_found_by_name(claims, at, "chatgpt_account_id"@, value);
    members_are_found_by_name(claims, at, "https://api.openai.com/auth"@, value);
    members_are_found_by_name(claims, at, "organizations"@, value);
    members_are_found_by_name(claims, at, "email"@, value);
}

/// A token without a second part, with one that is not base64, or with one that is no JSON says
/// nothing of its holder; any other says what the document in its second part does.
pub proof fn broken_tokens_say_nothing(header: Seq<char>, payload: Seq<char>, signature: Seq<char>)
    requires
        !header.contains('.'),
        !payload.contains('.'),
    ensures
        account_in_token(header) is None,
        email_in_token(header) is None,
        ({
            let jwt = header + seq!['.'] + payload + seq!['.'] + signature;
            match base64url_decoded(payload) {
                None => account_in_token(jwt) is None && email_in_token(jwt) is None,
                Some(document) => match json_document(document) {
                    None => account_in_token(jwt) is None && email_in_token(jwt) is None,
                    Some(claims) => account_in_token(jwt) == account_of(claims) && email_in_token(
                        jwt,
                    ) == email_of(claims),
                },
            }
        }),
{
    payload_is_the_second_part(header, payload, signature);
    let dot = text::is_char('.');
    assert forall|i: int| 0 <= i < header.len() implies !dot(#[trigger] header[i]) by {
        assert(header.contains(header[i]));
    }
    text::text_is_split_at_separators(header, '.', Seq::empty(), dot);
}

} // verus!
