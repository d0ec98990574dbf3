//! Resolving what the user typed on the command line to a login, and telling
//! rejected passwords apart from other connection failures.

use vstd::prelude::*;
use vstd::string::*;
use crate::store::{HostStore, found_by_partial, login_key, none_found};
use crate::text::{chars_of, contains_chars, lowercase, lowercase_chars, occurs_in};

verus! {

/// The index of the first `c` in `s`, or -1 when there is none.
pub open spec fn first_index_of(s: Seq<char>, c: char) -> int
    decreases s.len(),
{
    if s.len() == 0 {
        -1
    } else if s[0] == c {
        0
    } else {
        let r = first_index_of(s.drop_first(), c);
        if r < 0 {
            -1
        } else {
            r + 1
        }
    }
}

proof fn lemma_first_index_of(s: Seq<char>, c: char, i: int)
    requires
        0 <= i <= s.len(),
        forall|j: int| 0 <= j < i ==> s[j] != c,
    ensures
        i < s.len() && s[i] == c ==> first_index_of(s, c) == i,
        i == s.len() ==> first_index_of(s, c) == -1,
    decreases i,
{
    if i > 0 {
        lemma_first_index_of(s.drop_first(), c, i - 1);
    }
}

/// The message given when no saved login matches what was typed.
pub open spec fn no_match_message(target: Seq<char>) -> Seq<char> {
    "No saved host matching '"@ + target + "'. Use user@host on first login."@
}

/// What `lookup_target` answers: `user@host` splits at its first `@`, with the
/// password saved for exactly that login if there is one; anything else is
/// searched for among the saved logins, and `choice`, the login that the search
/// picks (see `HostStore::partial_choice`), has its user, host and password
/// answered, or the search fails with `no_match_message`.
pub open spec fn lookup_answer(
    target: Seq<char>,
    store: Map<Seq<char>, crate::store::HostEntryView>,
    choice: Option<crate::store::HostEntryView>,
    r: Result<(Seq<char>, Seq<char>, Option<Seq<char>>), Seq<char>>,
) -> bool {
    let at = first_index_of(target, '@');
    if at >= 0 {
        let user = target.take(at);
        let host = target.skip(at + 1);
        r == Ok::<_, Seq<char>>(
            (
                user,
                host,
                if store.contains_key(login_key(user, host)) {
                    Some(store[login_key(user, host)].password)
                } else {
                    None
                },
            ),
        )
    } else {
        match r {
            Ok((user, host, Some(password))) => {
                let e = crate::store::HostEntryView { user, host, password };
                choice == Some(e) && found_by_partial(store, target, e)
            },
            Ok((_, _, None)) => false,
            Err(msg) => choice is None && none_found(store, target) && msg == no_match_message(target),
        }
    }
}

/// Returns (user, host, Option<stored_password>).
pub fn lookup_target(target: &str, store: &HostStore) -> (r: Result<(String, String, Option<String>), String>)
    ensures
        lookup_answer(
            target@,
            store@,
            store.partial_choice(target@),
            match r {
                Ok((u, h, p)) => Ok((u@, h@, match p {
                    Some(x) => Some(x@),
                    None => None,
                })),
                Err(e) => Err(e@),
            },
        ),
{
    let n = target.unicode_len();
    let mut i: usize = 0;
    while i < n
        invariant
            n == target@.len(),
            i <= n,
            forall|j: int| 0 <= j < i ==> target@[j] != '@',
        ensures
            i <= n,
            forall|j: int| 0 <= j < i ==> target@[j] != '@',
            i < n ==> target@[i as int] == '@',
        decreases n - i,
    {
        if target.get_char(i) == '@' {
            break;
        }
        i = i + 1;
    }
    proof {
        lemma_first_index_of(target@, '@', i as int);
    }
    if i < n {
        let user = String::from_str(target.substring_char(0, i));
        let host = String::from_str(target.substring_char(i + 1, n));
        assert(target@.take(i as int) =~= target@.subrange(0, i as int));
        assert(target@.skip(i + 1) =~= target@.subrange(i + 1, n as int));
        let password = match store.get(user.as_str(), host.as_str()) {
            Some(e) => Some(e.password.clone()),
            None => None,
        };
        assert(first_index_of(target@, '@') == i);
        assert(user@ == target@.take(i as int));
        assert(host@ == target@.skip(i + 1));
        Ok((user, host, password))
    } else {
        match store.find_partial(target) {
            Some(e) => {
                let r = (e.user.clone(), e.host.clone(), Some(e.password.clone()));
                assert(found_by_partial(store@, target@, crate::store::HostEntryView { user: r.0@, host: r.1@, password: e.password@ }));
                Ok(r)
            },
            None => {
                let mut msg = String::from_str("No saved host matching '");
                msg.append(target);
                msg.append("'. Use user@host on first login.");
                assert(msg@ == no_match_message(target@));
                Err(msg)
            },
        }
    }
}

/// Typing `user@host` for a user name without `@` gives back that user and host.
pub proof fn lemma_lookup_splits_login(
    user: Seq<char>,
    host: Seq<char>,
    store: Map<Seq<char>, crate::store::HostEntryView>,
    choice: Option<crate::store::HostEntryView>,
    r: Result<(Seq<char>, Seq<char>, Option<Seq<char>>), Seq<char>>,
)
    requires
        forall|j: int| 0 <= j < user.len() ==> user[j] != '@',
        lookup_answer(login_key(user, host), store, choice, r),
    ensures
        r matches Ok((u, h, p)) && u == user && h == host && (p is Some <==> store.contains_key(login_key(user, host))),
{
    let t = login_key(user, host);
    assert(t[user.len() as int] == '@');
    assert forall|j: int| 0 <= j < user.len() implies t[j] != '@' by {
        assert(t[j] == user[j]);
    }
    lemma_first_index_of(t, '@', user.len() as int);
    assert(t.take(user.len() as int) =~= user);
    assert(t.skip(user.len() as int + 1) =~= host);
}

/// A failure message says that authentication failed: lower-cased, it holds
/// "authentication" or "auth".
pub open spec fn mentions_auth(message: Seq<char>) -> bool {
    occurs_in(lowercase(message), "authentication"@) || occurs_in(lowercase(message), "auth"@)
}

/// Whether a connection failure's message says that authentication failed.
pub fn is_auth_error(message: &str) -> (r: bool)
    ensures
        r == mentions_auth(message@),
{
    let s = lowercase_chars(message);
    contains_chars(&s, &chars_of("authentication")) || contains_chars(&s, &chars_of("auth"))
}

/// What follows a connection attempt with the saved password.
#[derive(Clone, Copy, Debug, PartialEq, Eq, Structural)]
pub enum AfterSavedPassword {
    /// The connection stands.
    Connected,
    /// The saved password was rejected: ask for one.
    AskPassword,
    /// Another failure: give up with it.
    GiveUp,
}

/// Decides what follows a connection attempt with the saved password: success
/// keeps the connection, a failure whose message says that authentication failed
/// asks for a password, and any other failure ends the login.
pub fn after_saved_password(outcome: &Result<(), String>) -> (next: AfterSavedPassword)
    ensures
        next == match outcome {
            Ok(()) => AfterSavedPassword::Connected,
            Err(msg) => if mentions_auth(msg@) {
                AfterSavedPassword::AskPassword
            } else {
                AfterSavedPassword::GiveUp
            },
        },
{
    match outcome {
        Ok(()) => AfterSavedPassword::Connected,
        Err(msg) => if is_auth_error(msg.as_str()) {
            AfterSavedPassword::AskPassword
        } else {
            AfterSavedPassword::GiveUp
        },
    }
}

/// Testing for "authentication" adds nothing: a message says that authentication
/// failed exactly when its lower-cased form holds "auth".
pub proof fn lemma_auth_is_enough(message: Seq<char>)
    ensures
        mentions_auth(message) == occurs_in(lowercase(message), "auth"@),
{
    reveal_strlit("authentication");
    reveal_strlit("auth");
    let s = lowercase(message);
    if occurs_in(s, "authentication"@) {
        let i = choose|i: int| 0 <= i && i + "authentication"@.len() <= s.len() && #[trigger] s.subrange(i, i + "authentication"@.len()) == "authentication"@;
        assert(s.subrange(i, i + 4) =~= "authentication"@.subrange(0, 4));
        assert("authentication"@.subrange(0, 4) =~= "auth"@);
        assert(s.subrange(i, i + "auth"@.len()) == "auth"@);
    }
}

} // verus!
