//! Application state: the configuration, the pending-verification store,
//! and the four durable allow-lists.
//!
//! The allow-lists are concurrent sets of an outside crate, held opaquely
//! and modelled by `id_set_contents` / `name_set_contents`. Mirroring a
//! snapshot to disk is the application layer's task; the library builds the
//! snapshot and consumes it again at startup.

use crate::chars::lower_of;
use crate::chars::lowercase;
use crate::config::Config;
use crate::pending::PendingMap;
use crate::pending::PendingView;
use crate::pending::pending_contents;
use crate::utils::normalize_username;
use crate::utils::normalized_username;
use vstd::prelude::*;
use vstd::string::*;

verus! {

// ---------------------------------------------------------------------------
// Concurrent id sets and username sets
// ---------------------------------------------------------------------------

/// A concurrent set of account ids, held opaquely; `id_set_contents` names
/// what it holds.
#[verifier::external_body]
pub struct IdSet {
    inner: dashmap::DashSet<u64>,
}

/// What an id set holds.
pub uninterp spec fn id_set_contents(s: IdSet) -> Set<u64>;

impl IdSet {
    /// Relies on `DashSet::new`: a freshly created set is empty.
    #[verifier::external_body]
    pub fn new() -> (r: IdSet)
        ensures
            id_set_contents(r) == Set::<u64>::empty(),
    {
        IdSet { inner: dashmap::DashSet::new() }
    }

    /// Relies on `DashSet::insert`: adds the id.
    #[verifier::external_body]
    pub fn insert(&mut self, id: u64)
        ensures
            id_set_contents(*final(self)) == id_set_contents(*old(self)).insert(id),
    {
        self.inner.insert(id);
    }

    /// Relies on `DashSet::remove`: takes the id out.
    #[verifier::external_body]
    pub fn remove(&mut self, id: u64)
        ensures
            id_set_contents(*final(self)) == id_set_contents(*old(self)).remove(id),
    {
        self.inner.remove(&id);
    }

    /// Relies on `DashSet::contains`: membership.
    #[verifier::external_body]
    pub fn contains(&self, id: u64) -> (r: bool)
        ensures
            r == id_set_contents(*self).contains(id),
    {
        self.inner.contains(&id)
    }

    /// Relies on `DashSet::iter`: every member once, in no promised order.
    #[verifier::external_body]
    pub fn to_vec(&self) -> (r: Vec<u64>)
        ensures
            r@.no_duplicates(),
            forall|x: u64| r@.contains(x) <==> id_set_contents(*self).contains(x),
    {
        self.inner.iter().map(|x| *x).collect()
    }
}

/// A concurrent set of normalized usernames, held opaquely;
/// `name_set_contents` names what it holds.
#[verifier::external_body]
pub struct NameSet {
    inner: dashmap::DashSet<String>,
}

/// What a username set holds, as character sequences.
pub uninterp spec fn name_set_contents(s: NameSet) -> Set<Seq<char>>;

impl NameSet {
    /// Relies on `DashSet::new`: a freshly created set is empty.
    #[verifier::external_body]
    pub fn new() -> (r: NameSet)
        ensures
            name_set_contents(r) == Set::<Seq<char>>::empty(),
    {
        NameSet { inner: dashmap::DashSet::new() }
    }

    /// Relies on `DashSet::insert`: adds the name; `String` equality is
    /// equality of the characters.
    #[verifier::external_body]
    pub fn insert(&mut self, name: String)
        ensures
            name_set_contents(*final(self)) == name_set_contents(*old(self)).insert(name@),
    {
        self.inner.insert(name);
    }

    /// Relies on `DashSet::remove`: takes the name out.
    #[verifier::external_body]
    pub fn remove(&mut self, name: &str)
        ensures
            name_set_contents(*final(self)) == name_set_contents(*old(self)).remove(name@),
    {
        self.inner.remove(name);
    }

    /// Relies on `DashSet::contains`: membership.
    #[verifier::external_body]
    pub fn contains(&self, name: &str) -> (r: bool)
        ensures
            r == name_set_contents(*self).contains(name@),
    {
        self.inner.contains(name)
    }

    /// Relies on `DashSet::iter`: every member once, in no promised order.
    #[verifier::external_body]
    pub fn to_vec(&self) -> (r: Vec<String>)
        ensures
            forall|i: int, j: int| 0 <= i < j < r@.len() ==> r@[i]@ != r@[j]@,
            forall|i: int| 0 <= i < r@.len() ==> name_set_contents(*self).contains(#[trigger] r@[i]@),
            forall|x: Seq<char>|
                name_set_contents(*self).contains(x) ==> exists|i: int|
                    0 <= i < r@.len() && #[trigger] r@[i]@ == x,
    {
        self.inner.iter().map(|x| x.clone()).collect()
    }
}

// ---------------------------------------------------------------------------
// Durable snapshot
// ---------------------------------------------------------------------------

/// The durable image of the four allow-lists; the application layer turns
/// it into one JSON document and back.
pub struct WhitelistSnapshot {
    pub bot_whitelist_ids: Vec<u64>,
    pub bot_whitelist_usernames: Vec<String>,
    pub user_whitelist_ids: Vec<u64>,
    pub user_whitelist_usernames: Vec<String>,
}

impl Default for WhitelistSnapshot {
    /// The empty snapshot: what a missing or malformed state file falls
    /// back to.
    fn default() -> (r: WhitelistSnapshot)
        ensures
            r.bot_whitelist_ids@.len() == 0,
            r.bot_whitelist_usernames@.len() == 0,
            r.user_whitelist_ids@.len() == 0,
            r.user_whitelist_usernames@.len() == 0,
    {
        WhitelistSnapshot {
            bot_whitelist_ids: Vec::new(),
            bot_whitelist_usernames: Vec::new(),
            user_whitelist_ids: Vec::new(),
            user_whitelist_usernames: Vec::new(),
        }
    }
}

/// Where the snapshot lives on disk; reading and writing it is the
/// application layer's task.
pub struct FileStore {
    pub path: String,
}

impl FileStore {
    /// Remembers the path of the durable state file.
    pub fn new(path: String) -> (r: FileStore)
        ensures
            r.path@ == path@,
    {
        FileStore { path }
    }
}

// ---------------------------------------------------------------------------
// The account a decision is about
// ---------------------------------------------------------------------------

/// What the engine reads of a platform account.
#[derive(Clone)]
pub struct UserInfo {
    pub id: u64,
    pub is_bot: bool,
    pub username: Option<String>,
}

// ---------------------------------------------------------------------------
// Application state
// ---------------------------------------------------------------------------

/// The state every handler works on: the static configuration, the pending
/// challenges, and the four allow-lists.
pub struct AppState {
    pub cfg: Config,
    pub pending: PendingMap,
    pub bot_whitelist_ids: IdSet,
    pub bot_whitelist_names: NameSet,
    pub user_whitelist_ids: IdSet,
    pub user_whitelist_names: NameSet,
}

/// Is the account allowed as a bot: by id, or by its lowercased username?
pub open spec fn spec_bot_allowed(st: AppState, u: UserInfo) -> bool {
    ||| id_set_contents(st.bot_whitelist_ids).contains(u.id)
    ||| match u.username {
        Some(n) => name_set_contents(st.bot_whitelist_names).contains(lower_of(n@)),
        None => false,
    }
}

/// Is the account allowed as a human: by id, or by its lowercased username?
pub open spec fn spec_user_allowed(st: AppState, u: UserInfo) -> bool {
    ||| id_set_contents(st.user_whitelist_ids).contains(u.id)
    ||| match u.username {
        Some(n) => name_set_contents(st.user_whitelist_names).contains(lower_of(n@)),
        None => false,
    }
}

/// Everything of the state but the named allow-list kept as it was.
pub open spec fn wl_unchanged_but_bots(a: AppState, b: AppState) -> bool {
    &&& a.cfg == b.cfg
    &&& pending_contents(a.pending) == pending_contents(b.pending)
    &&& id_set_contents(a.user_whitelist_ids) == id_set_contents(b.user_whitelist_ids)
    &&& name_set_contents(a.user_whitelist_names) == name_set_contents(b.user_whitelist_names)
}

/// Everything of the state but the human allow-list kept as it was.
pub open spec fn wl_unchanged_but_users(a: AppState, b: AppState) -> bool {
    &&& a.cfg == b.cfg
    &&& pending_contents(a.pending) == pending_contents(b.pending)
    &&& id_set_contents(a.bot_whitelist_ids) == id_set_contents(b.bot_whitelist_ids)
    &&& name_set_contents(a.bot_whitelist_names) == name_set_contents(b.bot_whitelist_names)
}

impl AppState {
    /// Restores the state from the configuration and the persisted
    /// snapshot: no challenge is pending, and each allow-list holds exactly
    /// the snapshot's entries, usernames lowercased on the way in.
    pub fn new(cfg: Config, persisted: WhitelistSnapshot) -> (r: AppState)
        ensures
            r.cfg == cfg,
            pending_contents(r.pending) == Map::<(int, int), PendingView>::empty(),
            forall|x: u64|
                id_set_contents(r.bot_whitelist_ids).contains(x)
                    <==> persisted.bot_whitelist_ids@.contains(x),
            forall|x: u64|
                id_set_contents(r.user_whitelist_ids).contains(x)
                    <==> persisted.user_whitelist_ids@.contains(x),
            forall|x: Seq<char>|
                name_set_contents(r.bot_whitelist_names).contains(x)
                    <==> exists|i: int|
                    0 <= i < persisted.bot_whitelist_usernames@.len() && x == lower_of(
                        #[trigger] persisted.bot_whitelist_usernames@[i]@,
                    ),
            forall|x: Seq<char>|
                name_set_contents(r.user_whitelist_names).contains(x)
                    <==> exists|i: int|
                    0 <= i < persisted.user_whitelist_usernames@.len() && x == lower_of(
                        #[trigger] persisted.user_whitelist_usernames@[i]@,
                    ),
    {
        let mut bot_ids = IdSet::new();
        let mut i: usize = 0;
        while i < persisted.bot_whitelist_ids.len()
            invariant
                i <= persisted.bot_whitelist_ids@.len(),
                forall|x: u64|
                    id_set_contents(bot_ids).contains(x)
                        <==> persisted.bot_whitelist_ids@.subrange(0, i as int).contains(x),
            decreases persisted.bot_whitelist_ids.len() - i,
        {
            bot_ids.insert(persisted.bot_whitelist_ids[i]);
            proof {
                broadcast use vstd::seq_lib::lemma_seq_contains_after_push;

                assert(persisted.bot_whitelist_ids@.subrange(0, i + 1) =~= persisted
                    .bot_whitelist_ids@.subrange(0, i as int).push(
                    persisted.bot_whitelist_ids@[i as int],
                ));
            }
            i = i + 1;
        }
        proof {
            assert(persisted.bot_whitelist_ids@.subrange(
                0,
                persisted.bot_whitelist_ids@.len() as int,
            ) =~= persisted.bot_whitelist_ids@);
        }
        let mut user_ids = IdSet::new();
        let mut i2: usize = 0;
        while i2 < persisted.user_whitelist_ids.len()
            invariant
                i2 <= persisted.user_whitelist_ids@.len(),
                forall|x: u64|
                    id_set_contents(user_ids).contains(x)
                        <==> persisted.user_whitelist_ids@.subrange(0, i2 as int).contains(x),
            decreases persisted.user_whitelist_ids.len() - i2,
        {
            user_ids.insert(persisted.user_whitelist_ids[i2]);
            proof {
                broadcast use vstd::seq_lib::lemma_seq_contains_after_push;

                assert(persisted.user_whitelist_ids@.subrange(0, i2 + 1) =~= persisted
                    .user_whitelist_ids@.subrange(0, i2 as int).push(
                    persisted.user_whitelist_ids@[i2 as int],
                ));
            }
            i2 = i2 + 1;
        }
        proof {
            assert(persisted.user_whitelist_ids@.subrange(
                0,
                persisted.user_whitelist_ids@.len() as int,
            ) =~= persisted.user_whitelist_ids@);
        }
        let mut bot_names = NameSet::new();
        let mut i3: usize = 0;
        while i3 < persisted.bot_whitelist_usernames.len()
            invariant
                i3 <= persisted.bot_whitelist_usernames@.len(),
                forall|x: Seq<char>|
                    name_set_contents(bot_names).contains(x)
                        <==> exists|j: int|
                        0 <= j < i3 && x == lower_of(
                            #[trigger] persisted.bot_whitelist_usernames@[j]@,
                        ),
            decreases persisted.bot_whitelist_usernames.len() - i3,
        {
            let low = lowercase(persisted.bot_whitelist_usernames[i3].as_str());
            bot_names.insert(low);
            i3 = i3 + 1;
        }
        let mut user_names = NameSet::new();
        let mut i4: usize = 0;
        while i4 < persisted.user_whitelist_usernames.len()
            invariant
                i4 <= persisted.user_whitelist_usernames@.len(),
                forall|x: Seq<char>|
                    name_set_contents(user_names).contains(x)
                        <==> exists|j: int|
                        0 <= j < i4 && x == lower_of(
                            #[trigger] persisted.user_whitelist_usernames@[j]@,
                        ),
            decreases persisted.user_whitelist_usernames.len() - i4,
        {
            let low = lowercase(persisted.user_whitelist_usernames[i4].as_str());
            user_names.insert(low);
            i4 = i4 + 1;
        }
        AppState {
            cfg,
            pending: PendingMap::new(),
            bot_whitelist_ids: bot_ids,
            bot_whitelist_names: bot_names,
            user_whitelist_ids: user_ids,
            user_whitelist_names: user_names,
        }
    }

    /// The challenge window, in seconds.
    pub fn timeout(&self) -> (r: u64)
        ensures
            r == self.cfg.captcha_timeout_secs,
    {
        self.cfg.captcha_timeout_secs
    }

    /// The store key for a chat and a user.
    pub fn key(chat_id: i64, user_id: u64) -> (r: (i64, u64))
        ensures
            r == (chat_id, user_id),
    {
        (chat_id, user_id)
    }

    /// Is the account allowed as a bot (by id or by username)?
    pub fn is_bot_allowed_user(&self, user: &UserInfo) -> (r: bool)
        ensures
            r == spec_bot_allowed(*self, *user),
    {
        if self.bot_whitelist_ids.contains(user.id) {
            return true;
        }
        match &user.username {
            Some(name) => {
                let low = lowercase(name.as_str());
                self.bot_whitelist_names.contains(low.as_str())
            },
            None => false,
        }
    }

    /// Is the account allowed as a human (by id or by username)?
    pub fn is_user_allowed(&self, user: &UserInfo) -> (r: bool)
        ensures
            r == spec_user_allowed(*self, *user),
    {
        if self.user_whitelist_ids.contains(user.id) {
            return true;
        }
        match &user.username {
            Some(name) => {
                let low = lowercase(name.as_str());
                self.user_whitelist_names.contains(low.as_str())
            },
            None => false,
        }
    }

    /// Allows a bot by id.
    pub fn allow_bot_id(&mut self, id: u64)
        ensures
            id_set_contents(final(self).bot_whitelist_ids) == id_set_contents(
                old(self).bot_whitelist_ids,
            ).insert(id),
            name_set_contents(final(self).bot_whitelist_names) == name_set_contents(
                old(self).bot_whitelist_names,
            ),
            wl_unchanged_but_bots(*old(self), *final(self)),
    {
        self.bot_whitelist_ids.insert(id);
    }

    /// Withdraws a bot's id from the allow-list.
    pub fn deny_bot_id(&mut self, id: u64)
        ensures
            id_set_contents(final(self).bot_whitelist_ids) == id_set_contents(
                old(self).bot_whitelist_ids,
            ).remove(id),
            name_set_contents(final(self).bot_whitelist_names) == name_set_contents(
                old(self).bot_whitelist_names,
            ),
            wl_unchanged_but_bots(*old(self), *final(self)),
    {
        self.bot_whitelist_ids.remove(id);
    }

    /// Allows a bot by username; the stored form is normalized.
    pub fn allow_bot_username(&mut self, name: &str)
        ensures
            name_set_contents(final(self).bot_whitelist_names) == name_set_contents(
                old(self).bot_whitelist_names,
            ).insert(normalized_username(name@)),
            id_set_contents(final(self).bot_whitelist_ids) == id_set_contents(
                old(self).bot_whitelist_ids,
            ),
            wl_unchanged_but_bots(*old(self), *final(self)),
    {
        let n = normalize_username(name);
        self.bot_whitelist_names.insert(n);
    }

    /// Withdraws a bot's username from the allow-list.
    pub fn deny_bot_username(&mut self, name: &str)
        ensures
            name_set_contents(final(self).bot_whitelist_names) == name_set_contents(
                old(self).bot_whitelist_names,
            ).remove(normalized_username(name@)),
            id_set_contents(final(self).bot_whitelist_ids) == id_set_contents(
                old(self).bot_whitelist_ids,
            ),
            wl_unchanged_but_bots(*old(self), *final(self)),
    {
        let n = normalize_username(name);
        self.bot_whitelist_names.remove(n.as_str());
    }

    /// Allows a human by id.
    pub fn allow_user_id(&mut self, id: u64)
        ensures
            id_set_contents(final(self).user_whitelist_ids) == id_set_contents(
                old(self).user_whitelist_ids,
            ).insert(id),
            name_set_contents(final(self).user_whitelist_names) == name_set_contents(
                old(self).user_whitelist_names,
            ),
            wl_unchanged_but_users(*old(self), *final(self)),
    {
        self.user_whitelist_ids.insert(id);
    }

    /// Withdraws a human's id from the allow-list.
    pub fn deny_user_id(&mut self, id: u64)
        ensures
            id_set_contents(final(self).user_whitelist_ids) == id_set_contents(
                old(self).user_whitelist_ids,
            ).remove(id),
            name_set_contents(final(self).user_whitelist_names) == name_set_contents(
                old(self).user_whitelist_names,
            ),
            wl_unchanged_but_users(*old(self), *final(self)),
    {
        self.user_whitelist_ids.remove(id);
    }

    /// Allows a human by username; the stored form is normalized.
    pub fn allow_username(&mut self, name: &str)
        ensures
            name_set_contents(final(self).user_whitelist_names) == name_set_contents(
                old(self).user_whitelist_names,
            ).insert(normalized_username(name@)),
            id_set_contents(final(self).user_whitelist_ids) == id_set_contents(
                old(self).user_whitelist_ids,
            ),
            wl_unchanged_but_users(*old(self), *final(self)),
    {
        let n = normalize_username(name);
        self.user_whitelist_names.insert(n);
    }

    /// Withdraws a human's username from the allow-list.
    pub fn deny_username(&mut self, name: &str)
        ensures
            name_set_contents(final(self).user_whitelist_names) == name_set_contents(
                old(self).user_whitelist_names,
            ).remove(normalized_username(name@)),
            id_set_contents(final(self).user_whitelist_ids) == id_set_contents(
                old(self).user_whitelist_ids,
            ),
            wl_unchanged_but_users(*old(self), *final(self)),
    {
        let n = normalize_username(name);
        self.user_whitelist_names.remove(n.as_str());
    }

    /// The durable image of the four allow-lists, each member exactly once.
    pub fn snapshot(&self) -> (r: WhitelistSnapshot)
        ensures
            r.bot_whitelist_ids@.no_duplicates(),
            r.user_whitelist_ids@.no_duplicates(),
            forall|x: u64|
                r.bot_whitelist_ids@.contains(x) <==> id_set_contents(
                    self.bot_whitelist_ids,
                ).contains(x),
            forall|x: u64|
                r.user_whitelist_ids@.contains(x) <==> id_set_contents(
                    self.user_whitelist_ids,
                ).contains(x),
            forall|i: int, j: int|
                0 <= i < j < r.bot_whitelist_usernames@.len() ==> r.bot_whitelist_usernames@[i]@
                    != r.bot_whitelist_usernames@[j]@,
            forall|i: int, j: int|
                0 <= i < j < r.user_whitelist_usernames@.len() ==> r.user_whitelist_usernames@[i]@
                    != r.user_whitelist_usernames@[j]@,
            forall|i: int|
                0 <= i < r.bot_whitelist_usernames@.len() ==> name_set_contents(
                    self.bot_whitelist_names,
                ).contains(#[trigger] r.bot_whitelist_usernames@[i]@),
            forall|x: Seq<char>|
                name_set_contents(self.bot_whitelist_names).contains(x) ==> exists|i: int|
                    0 <= i < r.bot_whitelist_usernames@.len()
                        && #[trigger] r.bot_whitelist_usernames@[i]@ == x,
            forall|i: int|
                0 <= i < r.user_whitelist_usernames@.len() ==> name_set_contents(
                    self.user_whitelist_names,
                ).contains(#[trigger] r.user_whitelist_usernames@[i]@),
            forall|x: Seq<char>|
                name_set_contents(self.user_whitelist_names).contains(x) ==> exists|i: int|
                    0 <= i < r.user_whitelist_usernames@.len()
                        && #[trigger] r.user_whitelist_usernames@[i]@ == x,
    {
        let bot_ids = self.bot_whitelist_ids.to_vec();
        let bot_names = self.bot_whitelist_names.to_vec();
        let user_ids = self.user_whitelist_ids.to_vec();
        let user_names = self.user_whitelist_names.to_vec();
        let r = WhitelistSnapshot {
            bot_whitelist_ids: bot_ids,
            bot_whitelist_usernames: bot_names,
            user_whitelist_ids: user_ids,
            user_whitelist_usernames: user_names,
        };
        proof {
            assert forall|x: Seq<char>|
                name_set_contents(self.bot_whitelist_names).contains(x) implies exists|i: int|
                0 <= i < r.bot_whitelist_usernames@.len()
                    && #[trigger] r.bot_whitelist_usernames@[i]@ == x by {
                let i = choose|i: int|
                    0 <= i < r.bot_whitelist_usernames@.len() && #[trigger] r.bot_whitelist_usernames@[i]@
                    == x;
                assert(0 <= i < r.bot_whitelist_usernames@.len() && r.bot_whitelist_usernames@[i]@
                    == x);
            }
            assert forall|x: Seq<char>|
                name_set_contents(self.user_whitelist_names).contains(x) implies exists|i: int|
                0 <= i < r.user_whitelist_usernames@.len()
                    && #[trigger] r.user_whitelist_usernames@[i]@ == x by {
                let i = choose|i: int|
                    0 <= i < r.user_whitelist_usernames@.len()
                        && #[trigger] r.user_whitelist_usernames@[i]@ == x;
                assert(0 <= i < r.user_whitelist_usernames@.len() && r.user_whitelist_usernames@[i]@
                    == x);
            }
        }
        r
    }
}

} // verus!
