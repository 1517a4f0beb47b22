use vstd::prelude::*;
use vstd::slice::slice_subrange;

verus! {

/// Longest author name, in characters, after trimming.
pub const MAX_NAME_LENGTH: usize = 32;

/// Longest message body, in characters, after trimming.
pub const MAX_MESSAGE_LENGTH: usize = 2000;

/// The field of a message that a validation error is about.
#[derive(Clone, Copy, Debug, PartialEq, Eq, Structural)]
pub enum Field {
    Name,
    Message,
}

/// Why an inbound message was not admitted.
#[derive(Clone, Copy, Debug, PartialEq, Eq, Structural)]
pub enum ValidationError {
    /// The payload is not an object with string `name` and `message` (or `content`) members.
    MalformedPayload,
    /// The field is empty once trimmed.
    EmptyField(Field),
    /// The field is longer than the given number of characters once trimmed.
    FieldTooLong(Field, usize),
}

/// Unicode `White_Space`: the characters that `char::is_whitespace` accepts.
pub open spec fn is_white_space(c: char) -> bool {
    let v = c as u32;
    (0x9 <= v && v <= 0xd) || v == 0x20 || v == 0x85 || v == 0xa0 || v == 0x1680
        || (0x2000 <= v && v <= 0x200a) || v == 0x2028 || v == 0x2029 || v == 0x202f
        || v == 0x205f || v == 0x3000
}

/// Number of white-space characters at the start of `s`.
pub open spec fn leading_ws(s: Seq<char>) -> nat
    decreases s.len(),
{
    if s.len() > 0 && is_white_space(s[0]) {
        1 + leading_ws(s.subrange(1, s.len() as int))
    } else {
        0
    }
}

/// Number of white-space characters at the end of `s`.
pub open spec fn trailing_ws(s: Seq<char>) -> nat
    decreases s.len(),
{
    if s.len() > 0 && is_white_space(s[s.len() - 1]) {
        1 + trailing_ws(s.subrange(0, s.len() - 1))
    } else {
        0
    }
}

/// `s` without its leading white space.
pub open spec fn trim_start(s: Seq<char>) -> Seq<char> {
    s.subrange(leading_ws(s) as int, s.len() as int)
}

/// `s` without its leading and trailing white space.
pub open spec fn trimmed(s: Seq<char>) -> Seq<char> {
    let t = trim_start(s);
    t.subrange(0, t.len() - trailing_ws(t))
}

/// The outcome of validating a name and a body that are already trimmed:
/// the first failing check, in the order empty name, empty body, long name,
/// long body.
pub open spec fn check_fields(name: Seq<char>, body: Seq<char>) -> Option<ValidationError> {
    if name.len() == 0 {
        Some(ValidationError::EmptyField(Field::Name))
    } else if body.len() == 0 {
        Some(ValidationError::EmptyField(Field::Message))
    } else if name.len() > MAX_NAME_LENGTH {
        Some(ValidationError::FieldTooLong(Field::Name, MAX_NAME_LENGTH))
    } else if body.len() > MAX_MESSAGE_LENGTH {
        Some(ValidationError::FieldTooLong(Field::Message, MAX_MESSAGE_LENGTH))
    } else {
        None
    }
}

/// The contents of an accepted message.
pub struct ChatView {
    pub name: Seq<char>,
    pub message: Seq<char>,
    pub time: i64,
}

impl ChatView {
    /// Both fields trimmed, non-empty and within their bounds.
    pub open spec fn well_formed(self) -> bool {
        &&& trimmed(self.name) == self.name
        &&& trimmed(self.message) == self.message
        &&& check_fields(self.name, self.message).is_none()
    }
}

/// What admitting the given name and body at time `now` yields: the fields
/// are trimmed, checked, and the message is stamped with `now`.
pub open spec fn sanitized(name: Seq<char>, body: Seq<char>, now: i64) -> Result<ChatView, ValidationError> {
    let n = trimmed(name);
    let b = trimmed(body);
    match check_fields(n, b) {
        Some(e) => Err(e),
        None => Ok(ChatView { name: n, message: b, time: now }),
    }
}

/// What admitting looked-up payload fields yields: a missing field makes the
/// payload malformed.
pub open spec fn sanitized_fields(
    name: Option<Seq<char>>,
    body: Option<Seq<char>>,
    now: i64,
) -> Result<ChatView, ValidationError> {
    match (name, body) {
        (Some(n), Some(b)) => sanitized(n, b, now),
        _ => Err(ValidationError::MalformedPayload),
    }
}

/// A message admitted into the relay. Its fields can only be set by
/// validation, so every value of this type is well formed.
pub struct Chat {
    name: String,
    message: String,
    time: i64,
}

impl View for Chat {
    type V = ChatView;

    closed spec fn view(&self) -> ChatView {
        ChatView { name: self.name@, message: self.message@, time: self.time }
    }
}

impl Clone for Chat {
    fn clone(&self) -> (r: Chat)
        ensures
            r@ == self@,
    {
        proof {
            use_type_invariant(self);
        }
        Chat { name: self.name.clone(), message: self.message.clone(), time: self.time }
    }
}

impl Chat {
    /// Every admitted message is trimmed, non-empty and within its bounds.
    #[verifier::type_invariant]
    pub open spec fn inv(&self) -> bool {
        self@.well_formed()
    }

    /// The author, trimmed.
    pub fn name(&self) -> (r: &str)
        ensures
            r@ == self@.name,
    {
        self.name.as_str()
    }

    /// The body, trimmed.
    pub fn message(&self) -> (r: &str)
        ensures
            r@ == self@.message,
    {
        self.message.as_str()
    }

    /// Milliseconds since the Unix epoch at which the server admitted it.
    pub fn time(&self) -> (r: i64)
        ensures
            r == self@.time,
    {
        self.time
    }
}

/// Whether `c` is Unicode white space.
pub fn is_white_space_char(c: char) -> (r: bool)
    ensures
        r == is_white_space(c),
{
    let v = c as u32;
    (0x9 <= v && v <= 0xd) || v == 0x20 || v == 0x85 || v == 0xa0 || v == 0x1680
        || (0x2000 <= v && v <= 0x200a) || v == 0x2028 || v == 0x2029 || v == 0x202f
        || v == 0x205f || v == 0x3000
}

/// The view of a validation outcome.
pub open spec fn outcome_view(r: Result<Chat, ValidationError>) -> Result<ChatView, ValidationError> {
    match r {
        Ok(c) => Ok(c@),
        Err(e) => Err(e),
    }
}

/// What `serde_json` finds under `key` in the JSON object `raw`, when `raw`
/// parses as an object and that member is a string.
pub uninterp spec fn json_string_member(raw: Seq<char>, key: Seq<char>) -> Option<Seq<char>>;

/// The body of a wire message: its `message` member, or else its `content` member.
pub open spec fn payload_body(raw: Seq<char>) -> Option<Seq<char>> {
    match json_string_member(raw, "message"@) {
        Some(b) => Some(b),
        None => json_string_member(raw, "content"@),
    }
}

/// What admitting the wire message `raw` at time `now` yields.
pub open spec fn admitted(raw: Seq<char>, now: i64) -> Result<ChatView, ValidationError> {
    sanitized_fields(json_string_member(raw, "name"@), payload_body(raw), now)
}

/// Relies on `serde_json::from_str` into a `serde_json::Value`, then
/// `Value::get` and `Value::as_str`: the string member `key` of the object
/// that `raw` holds, if any. The result depends on the two texts alone.
#[verifier::external_body]
pub(crate) fn string_member(raw: &str, key: &str) -> (r: Option<String>)
    ensures
        match r {
            Some(v) => json_string_member(raw@, key@) == Some(v@),
            None => json_string_member(raw@, key@).is_none(),
        },
{
    let value: serde_json::Value = serde_json::from_str(raw).ok()?;
    value.get(key)?.as_str().map(|v| v.to_string())
}

/// Relies on `str::chars`, collected: the characters of `s` in order.
#[verifier::external_body]
pub(crate) fn chars_of(s: &str) -> (r: Vec<char>)
    ensures
        r@ == s@,
{
    s.chars().collect()
}

/// Relies on collecting `char`s into a `String`: the string of those characters.
#[verifier::external_body]
pub(crate) fn string_of(chars: &[char]) -> (r: String)
    ensures
        r@ == chars@,
{
    chars.iter().collect()
}

/// Relies on `chrono::Utc::now` and `DateTime::timestamp_millis`: the wall
/// clock in milliseconds since the Unix epoch. `Utc::now` panics on a clock
/// before the epoch, so a returned value is not negative.
#[verifier::external_body]
fn now_millis() -> (r: i64)
    ensures
        r >= 0,
{
    chrono::Utc::now().timestamp_millis()
}

proof fn lemma_leading_ws(s: Seq<char>, i: int)
    requires
        0 <= i <= s.len(),
        forall|k: int| 0 <= k < i ==> is_white_space(#[trigger] s[k]),
        i == s.len() || !is_white_space(s[i]),
    ensures
        leading_ws(s) == i,
    decreases i,
{
    if i > 0 {
        let t = s.subrange(1, s.len() as int);
        assert forall|k: int| 0 <= k < i - 1 implies is_white_space(#[trigger] t[k]) by {
            assert(t[k] == s[k + 1]);
        }
        lemma_leading_ws(t, i - 1);
    }
}

pub(crate) proof fn lemma_trailing_ws(s: Seq<char>, j: int)
    requires
        0 <= j <= s.len(),
        forall|k: int| j <= k < s.len() ==> is_white_space(#[trigger] s[k]),
        j == 0 || !is_white_space(s[j - 1]),
    ensures
        trailing_ws(s) == s.len() - j,
    decreases s.len() - j,
{
    if j < s.len() {
        let t = s.subrange(0, s.len() - 1);
        assert(is_white_space(s[s.len() - 1]));
        assert forall|k: int| j <= k < t.len() implies is_white_space(#[trigger] t[k]) by {
            assert(t[k] == s[k]);
        }
        lemma_trailing_ws(t, j);
    }
}

proof fn lemma_leading_ws_bounds(s: Seq<char>)
    ensures
        leading_ws(s) <= s.len(),
        forall|k: int| 0 <= k < leading_ws(s) ==> is_white_space(#[trigger] s[k]),
        leading_ws(s) == s.len() || !is_white_space(s[leading_ws(s) as int]),
    decreases s.len(),
{
    if s.len() > 0 && is_white_space(s[0]) {
        let t = s.subrange(1, s.len() as int);
        lemma_leading_ws_bounds(t);
        assert forall|k: int| 0 <= k < leading_ws(s) implies is_white_space(#[trigger] s[k]) by {
            if k > 0 {
                assert(s[k] == t[k - 1]);
            }
        }
        if leading_ws(s) < s.len() {
            assert(s[leading_ws(s) as int] == t[leading_ws(t) as int]);
        }
    }
}

proof fn lemma_trailing_ws_bounds(s: Seq<char>)
    ensures
        trailing_ws(s) <= s.len(),
        forall|k: int| s.len() - trailing_ws(s) <= k < s.len() ==> is_white_space(#[trigger] s[k]),
        trailing_ws(s) == s.len() || !is_white_space(s[s.len() - trailing_ws(s) - 1]),
    decreases s.len(),
{
    if s.len() > 0 && is_white_space(s[s.len() - 1]) {
        let t = s.subrange(0, s.len() - 1);
        lemma_trailing_ws_bounds(t);
        assert forall|k: int| s.len() - trailing_ws(s) <= k < s.len() implies is_white_space(
            #[trigger] s[k],
        ) by {
            if k < s.len() - 1 {
                assert(s[k] == t[k]);
            }
        }
        if trailing_ws(s) < s.len() {
            assert(s[s.len() - trailing_ws(s) - 1] == t[t.len() - trailing_ws(t) - 1]);
        }
    }
}

/// Trimming is idempotent: a trimmed text has no white space left at either end.
pub proof fn lemma_trim_idempotent(s: Seq<char>)
    ensures
        trimmed(trimmed(s)) == trimmed(s),
{
    let t = trim_start(s);
    let r = trimmed(s);
    lemma_leading_ws_bounds(s);
    lemma_trailing_ws_bounds(t);
    if r.len() > 0 {
        assert(r[0] == t[0]);
        assert(t[0] == s[leading_ws(s) as int]);
        assert(r[r.len() - 1] == t[t.len() - trailing_ws(t) - 1]);
    }
    lemma_leading_ws(r, 0);
    assert(trim_start(r) =~= r);
    lemma_trailing_ws(r, r.len() as int);
    assert(trimmed(r) =~= r);
}

/// Whatever sanitizing admits is trimmed, non-empty and within its bounds.
pub proof fn lemma_sanitized_well_formed(name: Seq<char>, body: Seq<char>, now: i64)
    ensures
        sanitized(name, body, now) matches Ok(c) ==> c.well_formed(),
{
    lemma_trim_idempotent(name);
    lemma_trim_idempotent(body);
}

/// Every message admitted from the wire is well formed.
pub proof fn lemma_admitted_well_formed(raw: Seq<char>, now: i64)
    ensures
        admitted(raw, now) matches Ok(c) ==> c.well_formed(),
{
    if let (Some(n), Some(b)) = (json_string_member(raw, "name"@), payload_body(raw)) {
        lemma_sanitized_well_formed(n, b, now);
    }
}

/// Sanitizing an already trimmed, in-bounds message changes nothing, and
/// sanitizing the fields of a sanitized message gives that message again.
pub proof fn lemma_sanitize_idempotent(name: Seq<char>, body: Seq<char>, now: i64)
    ensures
        (ChatView { name, message: body, time: now }).well_formed() ==> sanitized(name, body, now)
            == Ok::<ChatView, ValidationError>(ChatView { name, message: body, time: now }),
        sanitized(name, body, now) matches Ok(c) ==> sanitized(c.name, c.message, now) == Ok::<
            ChatView,
            ValidationError,
        >(c),
{
    lemma_trim_idempotent(name);
    lemma_trim_idempotent(body);
}

/// Removes leading and trailing Unicode white space, as `str::trim` does.
pub fn trim(s: &str) -> (r: String)
    ensures
        r@ == trimmed(s@),
{
    let chars = chars_of(s);
    let n = chars.len();
    let mut i: usize = 0;
    while i < n && is_white_space_char(chars[i])
        invariant
            0 <= i <= n,
            n == chars@.len(),
            forall|k: int| 0 <= k < i ==> is_white_space(#[trigger] chars@[k]),
        decreases n - i,
    {
        i += 1;
    }
    let mut j: usize = n;
    while j > i && is_white_space_char(chars[j - 1])
        invariant
            i <= j <= n,
            n == chars@.len(),
            forall|k: int| j <= k < n ==> is_white_space(#[trigger] chars@[k]),
        decreases j,
    {
        j -= 1;
    }
    proof {
        lemma_leading_ws(chars@, i as int);
        let t = chars@.subrange(i as int, n as int);
        assert(trim_start(chars@) == t);
        assert forall|k: int| (j - i) <= k < t.len() implies is_white_space(#[trigger] t[k]) by {
            assert(t[k] == chars@[k + i]);
        }
        if j > i {
            assert(t[j - i - 1] == chars@[j - 1]);
        }
        lemma_trailing_ws(t, (j - i) as int);
        assert(trimmed(chars@) =~= chars@.subrange(i as int, j as int));
    }
    string_of(slice_subrange(chars.as_slice(), i, j))
}

impl Chat {
    /// Trims `name` and `message`, checks them, and stamps the result with
    /// `now`: the first of an empty name, an empty body, a name over
    /// `MAX_NAME_LENGTH` characters and a body over `MAX_MESSAGE_LENGTH`
    /// characters is the error.
    pub fn sanitize(name: &str, message: &str, now: i64) -> (r: Result<Chat, ValidationError>)
        ensures
            outcome_view(r) == sanitized(name@, message@, now),
    {
        proof {
            lemma_trim_idempotent(name@);
            lemma_trim_idempotent(message@);
        }
        let name = trim(name);
        let message = trim(message);
        let name_len = chars_of(name.as_str()).len();
        let message_len = chars_of(message.as_str()).len();
        if name_len == 0 {
            Err(ValidationError::EmptyField(Field::Name))
        } else if message_len == 0 {
            Err(ValidationError::EmptyField(Field::Message))
        } else if name_len > MAX_NAME_LENGTH {
            Err(ValidationError::FieldTooLong(Field::Name, MAX_NAME_LENGTH))
        } else if message_len > MAX_MESSAGE_LENGTH {
            Err(ValidationError::FieldTooLong(Field::Message, MAX_MESSAGE_LENGTH))
        } else {
            Ok(Chat { name, message, time: now })
        }
    }

    /// Admits payload fields that were looked up: a missing one makes the
    /// payload malformed, else as `sanitize`.
    pub fn from_fields(name: Option<String>, message: Option<String>, now: i64) -> (r: Result<
        Chat,
        ValidationError,
    >)
        ensures
            outcome_view(r) == sanitized_fields(
                match name { Some(n) => Some(n@), None => None },
                match message { Some(m) => Some(m@), None => None },
                now,
            ),
    {
        match (name, message) {
            (Some(n), Some(m)) => Chat::sanitize(n.as_str(), m.as_str(), now),
            _ => Err(ValidationError::MalformedPayload),
        }
    }

    /// Admits the JSON wire message `raw` (`{"name": .., "message": ..}`,
    /// with `content` in place of `message` accepted) at time `now`. Any
    /// timestamp the client sent is ignored.
    pub fn accept(raw: &str, now: i64) -> (r: Result<Chat, ValidationError>)
        ensures
            outcome_view(r) == admitted(raw@, now),
    {
        let name = string_member(raw, "name");
        let message = match string_member(raw, "message") {
            Some(m) => Some(m),
            None => string_member(raw, "content"),
        };
        Chat::from_fields(name, message, now)
    }

    /// Admits the JSON wire message `raw`, stamped with the server's clock.
    pub fn accept_now(raw: &str) -> (r: Result<Chat, ValidationError>)
        ensures
            match r {
                Ok(c) => c@.time >= 0 && admitted(raw@, c@.time) == Ok::<ChatView, ValidationError>(c@),
                Err(e) => forall|t: i64| admitted(raw@, t) == Err::<ChatView, ValidationError>(e),
            },
    {
        let now = now_millis();
        let r = Chat::accept(raw, now);
        proof {
            if r.is_err() {
                assert forall|t: i64| admitted(raw@, t) == Err::<ChatView, ValidationError>(r->Err_0) by {
                }
            }
        }
        r
    }
}

} // verus!
