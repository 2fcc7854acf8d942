use unicode_segmentation::UnicodeSegmentation;
use crate::subscriptions::FormData;
use vstd::prelude::*;

verus! {

/// The longest subscriber name accepted, in user-perceived characters.
pub const MAX_NAME_GRAPHEMES: usize = 256;

/// Characters with the Unicode `White_Space` property.
pub open spec fn white_space(c: char) -> bool {
    let n = c as u32;
    (0x9 <= n && n <= 0xd) || n == 0x20 || n == 0x85 || n == 0xa0 || n == 0x1680 || (0x2000 <= n
        && n <= 0x200a) || n == 0x2028 || n == 0x2029 || n == 0x202f || n == 0x205f || n == 0x3000
}

/// Characters that a subscriber name may not hold.
pub open spec fn forbidden_name_char(c: char) -> bool {
    c == '/' || c == '(' || c == ')' || c == '"' || c == '<' || c == '>' || c == '\\' || c == '{'
        || c == '}'
}

/// A string made of white space only (the empty string included).
pub open spec fn blank(s: Seq<char>) -> bool {
    forall|i: int| 0 <= i < s.len() ==> white_space(#[trigger] s[i])
}

/// The number of extended grapheme clusters in `s`.
pub uninterp spec fn grapheme_count(s: Seq<char>) -> nat;

/// What `validator::validate_email` answers for `s`.
pub uninterp spec fn email_shape_ok(s: Seq<char>) -> bool;

/// The name rules, given the number of grapheme clusters of `s`: not blank,
/// at most 256 clusters, none of the forbidden characters.
pub open spec fn name_rules_hold(s: Seq<char>, graphemes: nat) -> bool {
    &&& !blank(s)
    &&& graphemes <= MAX_NAME_GRAPHEMES
    &&& forall|i: int| 0 <= i < s.len() ==> !forbidden_name_char(#[trigger] s[i])
}

/// A name is accepted when the name rules hold of it.
pub open spec fn name_accepted(s: Seq<char>) -> bool {
    name_rules_hold(s, grapheme_count(s))
}

pub fn is_white_space(c: char) -> (r: bool)
    ensures
        r == white_space(c),
{
    let n = c as u32;
    (0x9 <= n && n <= 0xd) || n == 0x20 || n == 0x85 || n == 0xa0 || n == 0x1680 || (0x2000 <= n
        && n <= 0x200a) || n == 0x2028 || n == 0x2029 || n == 0x202f || n == 0x205f || n == 0x3000
}

pub fn is_forbidden_name_char(c: char) -> (r: bool)
    ensures
        r == forbidden_name_char(c),
{
    c == '/' || c == '(' || c == ')' || c == '"' || c == '<' || c == '>' || c == '\\' || c == '{'
        || c == '}'
}

/// Relies on `UnicodeSegmentation::graphemes` (extended clusters), counted.
#[verifier::external_body]
fn count_graphemes(s: &str) -> (r: usize)
    ensures
        r as nat == grapheme_count(s@),
{
    s.graphemes(true).count()
}

/// Relies on `validator::validate_email`; it rejects the empty string and
/// any string without an `@`.
#[verifier::external_body]
fn check_email_shape(s: &str) -> (r: bool)
    ensures
        r == email_shape_ok(s@),
        s@.len() == 0 ==> !r,
        !s@.contains('@') ==> !r,
{
    validator::validate_email(s)
}

/// Whether every character of `s` is white space.
pub fn is_blank(s: &str) -> (r: bool)
    ensures
        r == blank(s@),
{
    let mut all_space = true;
    for c in it: s.chars()
        invariant
            it.seq() == s@,
            all_space == (forall|i: int| 0 <= i < it.index() ==> white_space(#[trigger] s@[i])),
    {
        if !is_white_space(c) {
            all_space = false;
        }
    }
    all_space
}

/// Whether `s` holds a character that a name may not hold.
pub fn has_forbidden_name_char(s: &str) -> (r: bool)
    ensures
        r == (exists|i: int| 0 <= i < s@.len() && forbidden_name_char(#[trigger] s@[i])),
{
    let mut found = false;
    for c in it: s.chars()
        invariant
            it.seq() == s@,
            found == (exists|i: int| 0 <= i < it.index() && forbidden_name_char(#[trigger] s@[i])),
    {
        if is_forbidden_name_char(c) {
            found = true;
        }
    }
    found
}

/// A name that passed validation.
#[derive(Debug)]
pub struct SubscriberName {
    name: String,
}

impl View for SubscriberName {
    type V = Seq<char>;

    closed spec fn view(&self) -> Seq<char> {
        self.name@
    }
}

/// Whether the name rules hold of `s`, which has `graphemes` grapheme
/// clusters.
pub fn accepts_name(s: &str, graphemes: usize) -> (r: bool)
    ensures
        r == name_rules_hold(s@, graphemes as nat),
{
    let is_empty_or_whitespace = is_blank(s);
    let is_too_long = graphemes > MAX_NAME_GRAPHEMES;
    let contains_forbidden_chars = has_forbidden_name_char(s);
    !(is_empty_or_whitespace || is_too_long || contains_forbidden_chars)
}

impl SubscriberName {
    /// Accepts `s` exactly when it is a valid name; the error message
    /// repeats the rejected input.
    pub fn parse(s: String) -> (r: Result<SubscriberName, String>)
        ensures
            r is Ok <==> name_accepted(s@),
            r matches Ok(n) ==> n@ == s@,
            r matches Err(msg) ==> msg@ == s@ + " is not a valid subscriber name."@,
    {
        let graphemes = count_graphemes(s.as_str());
        if accepts_name(s.as_str(), graphemes) {
            Ok(SubscriberName { name: s })
        } else {
            Err(s.concat(" is not a valid subscriber name."))
        }
    }

    pub fn as_str(&self) -> (r: &str)
        ensures
            r@ == self@,
    {
        self.name.as_str()
    }
}

/// An email address that passed validation.
#[derive(Debug)]
pub struct SubscriberEmail {
    email: String,
}

impl View for SubscriberEmail {
    type V = Seq<char>;

    closed spec fn view(&self) -> Seq<char> {
        self.email@
    }
}

impl SubscriberEmail {
    /// Accepts `s` exactly when it is a structurally valid address; the
    /// error message repeats the rejected input.
    pub fn parse(s: String) -> (r: Result<SubscriberEmail, String>)
        ensures
            r is Ok <==> email_shape_ok(s@),
            s@.len() == 0 ==> r is Err,
            !s@.contains('@') ==> r is Err,
            r matches Ok(e) ==> e@ == s@,
            r matches Err(msg) ==> msg@ == s@ + " is not a valid subscriber email"@,
    {
        if check_email_shape(s.as_str()) {
            Ok(SubscriberEmail { email: s })
        } else {
            Err(s.concat(" is not a valid subscriber email"))
        }
    }

    pub fn as_str(&self) -> (r: &str)
        ensures
            r@ == self@,
    {
        self.email.as_str()
    }
}

/// A subscription request whose fields both passed validation.
#[derive(Debug)]
pub struct NewSubscriber {
    pub email: SubscriberEmail,
    pub name: SubscriberName,
}

impl NewSubscriber {
    /// Validates both fields of the form, the email first.
    pub fn try_from(value: FormData) -> (r: Result<NewSubscriber, String>)
        ensures
            r is Ok <==> email_shape_ok(value.email@) && name_accepted(value.name@),
            value.email@.len() == 0 ==> r is Err,
            !value.email@.contains('@') ==> r is Err,
            blank(value.name@) ==> r is Err,
            r matches Ok(s) ==> s.email@ == value.email@ && s.name@ == value.name@,
            !email_shape_ok(value.email@) ==> (r matches Err(m) && m@ == value.email@
                + " is not a valid subscriber email"@),
            email_shape_ok(value.email@) && !name_accepted(value.name@) ==> (r matches Err(m) && m@
                == value.name@ + " is not a valid subscriber name."@),
    {
        let email = match SubscriberEmail::parse(value.email) {
            Ok(e) => e,
            Err(m) => return Err(m),
        };
        let name = match SubscriberName::parse(value.name) {
            Ok(n) => n,
            Err(m) => return Err(m),
        };
        Ok(NewSubscriber { email, name })
    }
}

} // verus!
