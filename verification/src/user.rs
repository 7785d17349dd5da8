//! How a caller names a user: by identifier or by login.

use vstd::prelude::*;
use vstd::string::*;

verus! {

/// A user reference as the contracts see it.
pub ghost enum UserReference {
    ById(Seq<char>),
    ByLogin(Seq<char>),
}

/// A user named by identifier or by login; the text is borrowed from the token.
#[derive(Debug, Clone, Copy, PartialEq, Eq)]
pub enum UserType<'a> {
    Id(&'a str),
    Login(&'a str),
}

impl<'a> View for UserType<'a> {
    type V = UserReference;

    open spec fn view(&self) -> UserReference {
        match *self {
            UserType::Id(id) => UserReference::ById(id@),
            UserType::Login(login) => UserReference::ByLogin(login@),
        }
    }
}

/// The prefix that marks a token as an identifier.
pub open spec fn id_prefix() -> Seq<char> {
    seq!['i', 'd', ':']
}

/// The prefix that marks a token as a login.
pub open spec fn login_prefix() -> Seq<char> {
    seq!['l', 'o', 'g', 'i', 'n', ':']
}

/// What a token means. A marked token names what its prefix says, and is
/// refused when nothing follows the prefix; an unmarked one is a login where
/// `bare_is_login` holds and an identifier where it does not.
pub open spec fn parse_reference(token: Seq<char>, bare_is_login: bool) -> Option<UserReference> {
    if id_prefix().is_prefix_of(token) {
        if token.len() == id_prefix().len() {
            None
        } else {
            Some(UserReference::ById(token.skip(id_prefix().len() as int)))
        }
    } else if login_prefix().is_prefix_of(token) {
        if token.len() == login_prefix().len() {
            None
        } else {
            Some(UserReference::ByLogin(token.skip(login_prefix().len() as int)))
        }
    } else if bare_is_login {
        Some(UserReference::ByLogin(token))
    } else {
        Some(UserReference::ById(token))
    }
}

/// The view of a parse result.
pub open spec fn reference_of(parsed: Option<UserType>) -> Option<UserReference> {
    match parsed {
        Some(user) => Some(user@),
        None => None,
    }
}

/// What follows `prefix` in `text`, if `text` begins with it.
pub fn strip_prefix<'a>(text: &'a str, prefix: &str) -> (rest: Option<&'a str>)
    ensures
        rest is Some == prefix@.is_prefix_of(text@),
        rest matches Some(tail) ==> tail@ == text@.skip(prefix@.len() as int),
{
    let text_len: usize = text.unicode_len();
    let prefix_len: usize = prefix.unicode_len();
    if text_len < prefix_len {
        return None;
    }
    let mut i: usize = 0;
    while i < prefix_len
        invariant
            i <= prefix_len <= text_len,
            prefix_len == prefix@.len(),
            text_len == text@.len(),
            forall|j: int| 0 <= j < i ==> text@[j] == prefix@[j],
        decreases prefix_len - i,
    {
        if text.get_char(i) != prefix.get_char(i) {
            assert(text@.subrange(0, prefix@.len() as int)[i as int] != prefix@[i as int]);
            return None;
        }
        i += 1;
    }
    assert(text@.subrange(0, prefix@.len() as int) =~= prefix@);
    Some(text.substring_char(prefix_len, text_len))
}

/// Reads a token whose prefixes are honoured and whose bare form is `bare_is_login`.
fn parse_arg<'a>(arg: &'a str, bare_is_login: bool) -> (parsed: Option<UserType<'a>>)
    ensures
        reference_of(parsed) == parse_reference(arg@, bare_is_login),
{
    proof {
        reveal_strlit("id:");
        reveal_strlit("login:");
        assert("id:"@ =~= id_prefix());
        assert("login:"@ =~= login_prefix());
    }
    if let Some(id) = strip_prefix(arg, "id:") {
        if id.unicode_len() == 0 {
            None
        } else {
            Some(UserType::Id(id))
        }
    } else if let Some(login) = strip_prefix(arg, "login:") {
        if login.unicode_len() == 0 {
            None
        } else {
            Some(UserType::Login(login))
        }
    } else if bare_is_login {
        Some(UserType::Login(arg))
    } else {
        Some(UserType::Id(arg))
    }
}

/// Reads a token that names an identifier only when it says so: `id:` and
/// `login:` are honoured, and a bare token is a login.
pub fn parse_id_arg<'a>(arg: &'a str) -> (parsed: Option<UserType<'a>>)
    ensures
        reference_of(parsed) == parse_reference(arg@, true),
{
    parse_arg(arg, true)
}

/// Reads a token that names a login only when it says so: `id:` and `login:`
/// are honoured, and a bare token is an identifier.
pub fn parse_name_arg<'a>(arg: &'a str) -> (parsed: Option<UserType<'a>>)
    ensures
        reference_of(parsed) == parse_reference(arg@, false),
{
    parse_arg(arg, false)
}

} // verus!
