//! Saved logins: one entry per `user@host`, found by exact key or by part of a host name.

use vstd::prelude::*;
use vstd::string::*;
use crate::text::{chars_of, contains_chars, occurs_in};

verus! {

/// A saved login.
#[derive(Clone, Debug)]
pub struct HostEntry {
    pub user: String,
    pub host: String,
    pub password: String,
}

/// The plain contents of a saved login.
pub struct HostEntryView {
    pub user: Seq<char>,
    pub host: Seq<char>,
    pub password: Seq<char>,
}

impl View for HostEntry {
    type V = HostEntryView;

    open spec fn view(&self) -> HostEntryView {
        HostEntryView { user: self.user@, host: self.host@, password: self.password@ }
    }
}

impl HostEntry {
    /// A copy of the entry.
    pub fn duplicate(&self) -> (r: HostEntry)
        ensures
            r == *self,
    {
        HostEntry { user: self.user.clone(), host: self.host.clone(), password: self.password.clone() }
    }
}

/// The key under which a login is saved: `user@host`.
pub open spec fn login_key(user: Seq<char>, host: Seq<char>) -> Seq<char> {
    user + seq!['@'] + host
}

/// `partial` names the login `e`: it occurs in the host name or in `user@host`.
pub open spec fn partial_matches(e: HostEntryView, partial: Seq<char>) -> bool {
    occurs_in(e.host, partial) || occurs_in(login_key(e.user, e.host), partial)
}

/// `e` is an answer to a search for `partial`: the login saved under the key
/// `partial` when there is one, else any saved login that `partial` names.
pub open spec fn found_by_partial(m: Map<Seq<char>, HostEntryView>, partial: Seq<char>, e: HostEntryView) -> bool {
    if m.contains_key(partial) {
        e == m[partial]
    } else {
        exists|k: Seq<char>| #[trigger] m.contains_key(k) && m[k] == e && partial_matches(e, partial)
    }
}

/// No saved login is an answer to a search for `partial`.
pub open spec fn none_found(m: Map<Seq<char>, HostEntryView>, partial: Seq<char>) -> bool {
    &&& !m.contains_key(partial)
    &&& forall|k: Seq<char>| #[trigger] m.contains_key(k) ==> !partial_matches(m[k], partial)
}

/// The saved logins, by key.
pub struct HostStore {
    hosts: Vec<(String, HostEntry)>,
}

spec fn map_of(s: Seq<(String, HostEntry)>) -> Map<Seq<char>, HostEntryView>
    decreases s.len(),
{
    if s.len() == 0 {
        Map::empty()
    } else {
        map_of(s.drop_last()).insert(s.last().0@, s.last().1@)
    }
}

spec fn keys_unique(s: Seq<(String, HostEntry)>) -> bool {
    forall|i: int, j: int| 0 <= i < j < s.len() ==> (#[trigger] s[i]).0@ != (#[trigger] s[j]).0@
}

proof fn lemma_map_of(s: Seq<(String, HostEntry)>)
    requires
        keys_unique(s),
    ensures
        forall|k: Seq<char>| #[trigger] map_of(s).contains_key(k) <==> exists|i: int| 0 <= i < s.len() && (#[trigger] s[i]).0@ == k,
        forall|i: int| 0 <= i < s.len() ==> #[trigger] map_of(s)[s[i].0@] == s[i].1@,
    decreases s.len(),
{
    if s.len() > 0 {
        let t = s.drop_last();
        let n = s.len() - 1;
        assert(keys_unique(t));
        lemma_map_of(t);
        assert(map_of(s) == map_of(t).insert(s[n].0@, s[n].1@));
        assert forall|k: Seq<char>| #[trigger] map_of(s).contains_key(k) <==> exists|i: int| 0 <= i < s.len() && (#[trigger] s[i]).0@ == k by {
            if k == s[n].0@ {
                assert(s[n].0@ == k);
            } else {
                if map_of(s).contains_key(k) {
                    assert(map_of(t).contains_key(k));
                    let i = choose|i: int| 0 <= i < t.len() && (#[trigger] t[i]).0@ == k;
                    assert(s[i] == t[i]);
                }
                if exists|i: int| 0 <= i < s.len() && (#[trigger] s[i]).0@ == k {
                    let i = choose|i: int| 0 <= i < s.len() && (#[trigger] s[i]).0@ == k;
                    assert(i != n);
                    assert(t[i] == s[i]);
                    assert(map_of(t).contains_key(k));
                }
            }
        }
        assert forall|i: int| 0 <= i < s.len() implies #[trigger] map_of(s)[s[i].0@] == s[i].1@ by {
            if i < n {
                assert(t[i] == s[i]);
                assert(s[i].0@ != s[n].0@);
                assert(map_of(t)[t[i].0@] == t[i].1@);
            }
        }
    }
}

proof fn lemma_map_of_update(s: Seq<(String, HostEntry)>, i: int, p: (String, HostEntry))
    requires
        keys_unique(s),
        0 <= i < s.len(),
        s[i].0@ == p.0@,
    ensures
        keys_unique(s.update(i, p)),
        map_of(s.update(i, p)) == map_of(s).insert(p.0@, p.1@),
{
    let u = s.update(i, p);
    assert(keys_unique(u)) by {
        assert forall|a: int, b: int| 0 <= a < b < u.len() implies (#[trigger] u[a]).0@ != (#[trigger] u[b]).0@ by {
            assert(u[a].0@ == s[a].0@);
            assert(u[b].0@ == s[b].0@);
        }
    }
    lemma_map_of(s);
    lemma_map_of(u);
    assert forall|k: Seq<char>| #[trigger] map_of(u).contains_key(k) <==> map_of(s).insert(p.0@, p.1@).contains_key(k) by {
        if map_of(u).contains_key(k) {
            let j = choose|j: int| 0 <= j < u.len() && (#[trigger] u[j]).0@ == k;
            assert(s[j].0@ == k);
        }
        if map_of(s).contains_key(k) {
            let j = choose|j: int| 0 <= j < s.len() && (#[trigger] s[j]).0@ == k;
            assert(u[j].0@ == k);
        }
    }
    assert forall|k: Seq<char>| #[trigger] map_of(u).contains_key(k) implies map_of(u)[k] == map_of(s).insert(p.0@, p.1@)[k] by {
        let j = choose|j: int| 0 <= j < u.len() && (#[trigger] u[j]).0@ == k;
        if j != i {
            assert(u[j] == s[j]);
        }
    }
    assert(map_of(u) =~= map_of(s).insert(p.0@, p.1@));
}

/// The first saved login, in the order the logins were first saved, that
/// `partial` names.
spec fn first_match(s: Seq<(String, HostEntry)>, partial: Seq<char>) -> Option<HostEntryView>
    decreases s.len(),
{
    if s.len() == 0 {
        None
    } else if partial_matches(s[0].1@, partial) {
        Some(s[0].1@)
    } else {
        first_match(s.drop_first(), partial)
    }
}

proof fn lemma_first_match_skip(s: Seq<(String, HostEntry)>, partial: Seq<char>, i: int)
    requires
        0 <= i <= s.len(),
        forall|j: int| 0 <= j < i ==> !partial_matches((#[trigger] s[j]).1@, partial),
    ensures
        first_match(s, partial) == first_match(s.skip(i), partial),
    decreases i,
{
    if i == 0 {
        assert(s.skip(0) =~= s);
    } else {
        let t = s.drop_first();
        assert forall|j: int| 0 <= j < i - 1 implies !partial_matches((#[trigger] t[j]).1@, partial) by {
            assert(t[j] == s[j + 1]);
        }
        lemma_first_match_skip(t, partial, i - 1);
        assert(t.skip(i - 1) =~= s.skip(i));
    }
}

proof fn lemma_map_of_size(s: Seq<(String, HostEntry)>)
    requires
        keys_unique(s),
    ensures
        map_of(s).dom().finite(),
        map_of(s).len() == s.len(),
    decreases s.len(),
{
    if s.len() > 0 {
        let t = s.drop_last();
        assert(keys_unique(t));
        lemma_map_of_size(t);
        lemma_map_of(t);
        if map_of(t).contains_key(s.last().0@) {
            let i = choose|i: int| 0 <= i < t.len() && (#[trigger] t[i]).0@ == s.last().0@;
            assert(s[i] == t[i]);
        }
        assert(map_of(s).dom() =~= map_of(t).dom().insert(s.last().0@));
    }
}

impl View for HostStore {
    type V = Map<Seq<char>, HostEntryView>;

    closed spec fn view(&self) -> Map<Seq<char>, HostEntryView> {
        map_of(self.hosts@)
    }
}

impl HostStore {
    #[verifier::type_invariant]
    spec fn keys_distinct(self) -> bool {
        keys_unique(self.hosts@)
    }

    /// The login that a search for `partial` answers: the one saved under the key
    /// `partial` when there is one, else the first, in the order the logins were
    /// first saved, that `partial` names.
    pub closed spec fn partial_choice(&self, partial: Seq<char>) -> Option<HostEntryView> {
        if self@.contains_key(partial) {
            Some(self@[partial])
        } else {
            first_match(self.hosts@, partial)
        }
    }

    /// The number of saved logins.
    pub fn len(&self) -> (n: usize)
        ensures
            self@.dom().finite(),
            n == self@.len(),
    {
        proof {
            use_type_invariant(self);
            lemma_map_of_size(self.hosts@);
        }
        self.hosts.len()
    }

    /// An empty store.
    pub fn new() -> (r: HostStore)
        ensures
            r@ == Map::<Seq<char>, HostEntryView>::empty(),
            r@.dom().finite(),
    {
        HostStore { hosts: Vec::new() }
    }

    /// Where `key` is saved, if it is.
    fn position(&self, key: &String) -> (r: Option<usize>)
        ensures
            match r {
                Some(i) => i < self.hosts@.len() && self.hosts@[i as int].0@ == key@,
                None => !self@.contains_key(key@),
            },
    {
        proof {
            use_type_invariant(self);
            lemma_map_of(self.hosts@);
        }
        let mut i: usize = 0;
        while i < self.hosts.len()
            invariant
                i <= self.hosts@.len(),
                forall|j: int| 0 <= j < i ==> (#[trigger] self.hosts@[j]).0@ != key@,
            decreases self.hosts@.len() - i,
        {
            if self.hosts[i].0 == *key {
                return Some(i);
            }
            i = i + 1;
        }
        None
    }

    /// Saves `entry` under `key`, replacing what was saved there.
    pub fn insert(&mut self, key: String, entry: HostEntry)
        ensures
            final(self)@ == old(self)@.insert(key@, entry@),
            old(self)@.dom().finite(),
            final(self)@.dom().finite(),
            final(self)@.len() == old(self)@.len() + if old(self)@.contains_key(key@) { 0int } else { 1int },
    {
        proof {
            use_type_invariant(&*self);
            lemma_map_of_size(self.hosts@);
        }
        let found = self.position(&key);
        let ghost before = self.hosts@;
        let mut hosts: Vec<(String, HostEntry)> = Vec::new();
        std::mem::swap(&mut hosts, &mut self.hosts);
        assert(hosts@ == before);
        match found {
            Some(i) => {
                proof {
                    lemma_map_of_update(before, i as int, (key, entry));
                }
                hosts.set(i, (key, entry));
            },
            None => {
                proof {
                    lemma_map_of(before);
                }
                hosts.push((key, entry));
                assert(hosts@.drop_last() =~= before);
                assert(keys_unique(hosts@)) by {
                    assert forall|a: int, b: int| 0 <= a < b < hosts@.len() implies (#[trigger] hosts@[a]).0@ != (#[trigger] hosts@[b]).0@ by {
                        assert(hosts@[a] == before[a]);
                        if b < before.len() {
                            assert(hosts@[b] == before[b]);
                        }
                    }
                }
            },
        }
        self.hosts = hosts;
        proof {
            lemma_map_of_size(self.hosts@);
        }
    }

    /// The login saved for `user` at `host`.
    pub fn get(&self, user: &str, host: &str) -> (r: Option<&HostEntry>)
        ensures
            match r {
                Some(e) => self@.contains_key(login_key(user@, host@)) && e@ == self@[login_key(user@, host@)],
                None => !self@.contains_key(login_key(user@, host@)),
            },
    {
        proof {
            use_type_invariant(self);
            lemma_map_of(self.hosts@);
        }
        let mut key = String::from_str(user);
        key.push('@');
        key.append(host);
        assert(key@ =~= login_key(user@, host@));
        match self.position(&key) {
            Some(i) => Some(&self.hosts[i].1),
            None => None,
        }
    }

    /// Find by exact key, full "user@host" substring, or hostname substring.
    pub fn find_partial(&self, partial: &str) -> (r: Option<&HostEntry>)
        ensures
            match r {
                Some(e) => found_by_partial(self@, partial@, e@) && self.partial_choice(partial@) == Some(e@),
                None => none_found(self@, partial@) && self.partial_choice(partial@) is None,
            },
    {
        proof {
            use_type_invariant(self);
            lemma_map_of(self.hosts@);
        }
        let key = String::from_str(partial);
        match self.position(&key) {
            Some(i) => {
                return Some(&self.hosts[i].1);
            },
            None => {},
        }
        let p = chars_of(partial);
        let mut i: usize = 0;
        while i < self.hosts.len()
            invariant
                i <= self.hosts@.len(),
                p@ == partial@,
                keys_unique(self.hosts@),
                !self@.contains_key(partial@),
                forall|j: int| 0 <= j < i ==> !partial_matches((#[trigger] self.hosts@[j]).1@, partial@),
            decreases self.hosts@.len() - i,
        {
            let e = &self.hosts[i].1;
            let host = chars_of(e.host.as_str());
            let mut login = String::from_str(e.user.as_str());
            login.push('@');
            login.append(e.host.as_str());
            assert(login@ =~= login_key(e.user@, e.host@));
            let login_chars = chars_of(login.as_str());
            if contains_chars(&host, &p) || contains_chars(&login_chars, &p) {
                proof {
                    lemma_map_of(self.hosts@);
                    lemma_first_match_skip(self.hosts@, partial@, i as int);
                    let k = self.hosts@[i as int].0@;
                    assert(self.hosts@[i as int].0@ == k);
                    assert(self@.contains_key(k));
                    assert(self@[k] == e@);
                }
                return Some(e);
            }
            i = i + 1;
        }
        proof {
            lemma_map_of(self.hosts@);
            lemma_first_match_skip(self.hosts@, partial@, self.hosts@.len() as int);
            assert forall|k: Seq<char>| #[trigger] self@.contains_key(k) implies !partial_matches(self@[k], partial@) by {
                let j = choose|j: int| 0 <= j < self.hosts@.len() && (#[trigger] self.hosts@[j]).0@ == k;
            }
        }
        None
    }

    /// Saves `password` for `user` at `host` under the key `user@host`.
    pub fn upsert(&mut self, user: &str, host: &str, password: &str)
        ensures
            final(self)@ == old(self)@.insert(
                login_key(user@, host@),
                HostEntryView { user: user@, host: host@, password: password@ },
            ),
            final(self)@.dom().finite(),
            final(self)@.len() == old(self)@.len() + if old(self)@.contains_key(login_key(user@, host@)) {
                0int
            } else {
                1int
            },
    {
        let mut key = String::from_str(user);
        key.push('@');
        key.append(host);
        assert(key@ =~= login_key(user@, host@));
        let entry = HostEntry {
            user: String::from_str(user),
            host: String::from_str(host),
            password: String::from_str(password),
        };
        self.insert(key, entry);
    }

    /// Every saved key with its login, each once.
    pub fn pairs(&self) -> (r: Vec<(String, HostEntry)>)
        ensures
            forall|i: int| 0 <= i < r@.len() ==> self@.contains_key((#[trigger] r@[i]).0@) && self@[r@[i].0@] == r@[i].1@,
            forall|k: Seq<char>| #[trigger] self@.contains_key(k) ==> exists|i: int| 0 <= i < r@.len() && (#[trigger] r@[i]).0@ == k,
            forall|i: int, j: int| 0 <= i < j < r@.len() ==> (#[trigger] r@[i]).0@ != (#[trigger] r@[j]).0@,
    {
        proof {
            use_type_invariant(self);
            lemma_map_of(self.hosts@);
        }
        let mut r: Vec<(String, HostEntry)> = Vec::new();
        let mut i: usize = 0;
        while i < self.hosts.len()
            invariant
                i <= self.hosts@.len(),
                r@.len() == i,
                forall|j: int| 0 <= j < i ==> (#[trigger] r@[j]).0@ == self.hosts@[j].0@ && r@[j].1@ == self.hosts@[j].1@,
            decreases self.hosts@.len() - i,
        {
            let (k, e) = &self.hosts[i];
            r.push((k.clone(), e.duplicate()));
            i = i + 1;
        }
        proof {
            assert forall|k: Seq<char>| #[trigger] self@.contains_key(k) implies exists|i: int| 0 <= i < r@.len() && (#[trigger] r@[i]).0@ == k by {
                let j = choose|j: int| 0 <= j < self.hosts@.len() && (#[trigger] self.hosts@[j]).0@ == k;
                assert(r@[j].0@ == k);
            }
            assert forall|a: int, b: int| 0 <= a < b < r@.len() implies (#[trigger] r@[a]).0@ != (#[trigger] r@[b]).0@ by {
                assert(self.hosts@[a].0@ != self.hosts@[b].0@);
            }
        }
        r
    }
}

/// Reading a login back after saving it gives what was saved, and logins under
/// other keys are untouched.
pub proof fn lemma_upsert_then_get(
    m: Map<Seq<char>, HostEntryView>,
    user: Seq<char>,
    host: Seq<char>,
    password: Seq<char>,
    other: Seq<char>,
)
    ensures
        ({
            let saved = HostEntryView { user, host, password };
            let m2 = m.insert(login_key(user, host), saved);
            &&& m2.contains_key(login_key(user, host))
            &&& m2[login_key(user, host)] == saved
            &&& other != login_key(user, host) ==> (m2.contains_key(other) == m.contains_key(other)
                && (m.contains_key(other) ==> m2[other] == m[other]))
        }),
{
}

/// Saving the same login twice is the same as saving it once.
pub proof fn lemma_upsert_idempotent(m: Map<Seq<char>, HostEntryView>, user: Seq<char>, host: Seq<char>, password: Seq<char>)
    ensures
        ({
            let k = login_key(user, host);
            let saved = HostEntryView { user, host, password };
            m.insert(k, saved).insert(k, saved) == m.insert(k, saved)
        }),
{
    let k = login_key(user, host);
    let saved = HostEntryView { user, host, password };
    assert(m.insert(k, saved).insert(k, saved) =~= m.insert(k, saved));
}

/// After a login is saved, searching for its `user@host` key finds exactly it.
pub proof fn lemma_saved_login_found(
    m: Map<Seq<char>, HostEntryView>,
    user: Seq<char>,
    host: Seq<char>,
    password: Seq<char>,
    e: HostEntryView,
)
    ensures
        ({
            let saved = HostEntryView { user, host, password };
            let m2 = m.insert(login_key(user, host), saved);
            &&& found_by_partial(m2, login_key(user, host), e) <==> e == saved
            &&& !none_found(m2, login_key(user, host))
        }),
{
}

impl Default for HostStore {
    fn default() -> (r: HostStore)
        ensures
            r@ == Map::<Seq<char>, HostEntryView>::empty(),
    {
        HostStore::new()
    }
}

} // verus!
