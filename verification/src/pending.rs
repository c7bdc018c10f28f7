//! The pending-verification store: one outstanding challenge per
//! (chat, user) key, with atomic insert-once and remove-once semantics.
//!
//! The store itself is a concurrent map of an outside crate; its contents
//! are modelled by `pending_contents`, and every operation the engine uses
//! is specified against that model. The insert-once and remove-once laws
//! are proved over the same model.

use crate::config::CaptchaMode;
use vstd::prelude::*;

verus! {

/// One outstanding challenge, owned by the store while it exists.
#[derive(Clone)]
pub struct Pending {
    /// The chat the candidate joined.
    pub chat_id: i64,
    /// The candidate being verified.
    pub user_id: u64,
    /// The prompt message shown to the candidate.
    pub captcha_msg_id: i32,
    /// When the challenge expires, on the scheduler's monotonic clock, in
    /// milliseconds.
    pub deadline_ms: u64,
    /// The strategy that issued the challenge.
    pub captcha_mode: CaptchaMode,
    /// The exact answer expected, where the strategy has one.
    pub expected_answer: Option<String>,
    /// Messages the candidate wrote while pending, in arrival order.
    pub user_message_ids: Vec<i32>,
}

/// The mathematical shape of one pending challenge.
pub ghost struct PendingView {
    pub chat_id: int,
    pub user_id: int,
    pub captcha_msg_id: int,
    pub deadline_ms: int,
    pub captcha_mode: CaptchaMode,
    pub expected_answer: Option<Seq<char>>,
    pub user_message_ids: Seq<int>,
}

impl View for Pending {
    type V = PendingView;

    open spec fn view(&self) -> PendingView {
        PendingView {
            chat_id: self.chat_id as int,
            user_id: self.user_id as int,
            captcha_msg_id: self.captcha_msg_id as int,
            deadline_ms: self.deadline_ms as int,
            captcha_mode: self.captcha_mode,
            expected_answer: match self.expected_answer {
                Some(s) => Some(s@),
                None => None,
            },
            user_message_ids: self.user_message_ids@.map_values(|m: i32| m as int),
        }
    }
}

/// The concurrent map holding the outstanding challenges. The map itself
/// comes from an outside crate and is held opaquely; `pending_contents`
/// names what it holds.
#[verifier::external_body]
pub struct PendingMap {
    inner: dashmap::DashMap<(i64, u64), Pending>,
}

/// What the store holds: the outstanding challenge for each occupied
/// (chat, user) key.
pub uninterp spec fn pending_contents(m: PendingMap) -> Map<(int, int), PendingView>;

/// What an insert-if-absent leaves in the map, and whether it took effect.
pub open spec fn try_insert_model(
    m: Map<(int, int), PendingView>,
    k: (int, int),
    v: PendingView,
) -> (Map<(int, int), PendingView>, bool) {
    if m.dom().contains(k) {
        (m, false)
    } else {
        (m.insert(k, v), true)
    }
}

/// What a remove-if-present leaves in the map, and what it carried away.
pub open spec fn remove_model(m: Map<(int, int), PendingView>, k: (int, int)) -> (
    Map<(int, int), PendingView>,
    Option<PendingView>,
) {
    if m.dom().contains(k) {
        (m.remove(k), Some(m[k]))
    } else {
        (m, None)
    }
}

impl PendingMap {
    /// Relies on `DashMap::new`: a freshly created map is empty.
    #[verifier::external_body]
    pub fn new() -> (r: PendingMap)
        ensures
            pending_contents(r) == (Map::<(int, int), PendingView>::empty()),
    {
        PendingMap { inner: dashmap::DashMap::new() }
    }

    /// Relies on `DashMap::contains_key`: whether the key is occupied.
    #[verifier::external_body]
    pub fn contains(&self, chat_id: i64, user_id: u64) -> (r: bool)
        ensures
            r == pending_contents(*self).dom().contains((chat_id as int, user_id as int)),
    {
        self.inner.contains_key(&(chat_id, user_id))
    }

    /// Relies on `DashMap::entry`: inserts the challenge only when its key
    /// is free, atomically with the occupancy test.
    #[verifier::external_body]
    pub fn try_insert(&mut self, p: Pending) -> (r: bool)
        ensures
            r == try_insert_model(
                pending_contents(*old(self)),
                (p.chat_id as int, p.user_id as int),
                p@,
            ).1,
            pending_contents(*final(self)) == try_insert_model(
                pending_contents(*old(self)),
                (p.chat_id as int, p.user_id as int),
                p@,
            ).0,
    {
        let key = (p.chat_id, p.user_id);
        match self.inner.entry(key) {
            dashmap::mapref::entry::Entry::Occupied(_) => false,
            dashmap::mapref::entry::Entry::Vacant(slot) => {
                slot.insert(p);
                true
            },
        }
    }

    /// Relies on `DashMap::get`: a snapshot of the entry under the key, if
    /// any.
    #[verifier::external_body]
    pub fn get(&self, chat_id: i64, user_id: u64) -> (r: Option<Pending>)
        ensures
            match r {
                Some(p) => pending_contents(*self).dom().contains((chat_id as int, user_id as int))
                    && p@ == pending_contents(*self)[(chat_id as int, user_id as int)],
                None => !pending_contents(*self).dom().contains((chat_id as int, user_id as int)),
            },
    {
        self.inner.get(&(chat_id, user_id)).map(|r| r.value().clone())
    }

    /// Relies on `DashMap::remove`: takes the entry out atomically, so that
    /// of all concurrent removers exactly one obtains it.
    #[verifier::external_body]
    pub fn remove_if_present(&mut self, chat_id: i64, user_id: u64) -> (r: Option<Pending>)
        ensures
            pending_contents(*final(self)) == remove_model(
                pending_contents(*old(self)),
                (chat_id as int, user_id as int),
            ).0,
            match r {
                Some(p) => remove_model(
                    pending_contents(*old(self)),
                    (chat_id as int, user_id as int),
                ).1 matches Some(v) && p@ == v,
                None => remove_model(
                    pending_contents(*old(self)),
                    (chat_id as int, user_id as int),
                ).1 is None,
            },
    {
        self.inner.remove(&(chat_id, user_id)).map(|(_k, p)| p)
    }

    /// Relies on `DashMap::get_mut`: appends one message id to the entry
    /// under the key, if it exists; a no-op otherwise.
    #[verifier::external_body]
    pub fn append_message_id(&mut self, chat_id: i64, user_id: u64, message_id: i32) -> (r: bool)
        ensures
            r == pending_contents(*old(self)).dom().contains((chat_id as int, user_id as int)),
            r ==> pending_contents(*final(self)) == pending_contents(*old(self)).insert(
                (chat_id as int, user_id as int),
                PendingView {
                    user_message_ids: pending_contents(*old(self))[
                        (chat_id as int, user_id as int)
                    ].user_message_ids.push(message_id as int),
                    ..pending_contents(*old(self))[(chat_id as int, user_id as int)]
                },
            ),
            !r ==> pending_contents(*final(self)) == pending_contents(*old(self)),
    {
        match self.inner.get_mut(&(chat_id, user_id)) {
            Some(mut entry) => {
                entry.user_message_ids.push(message_id);
                true
            },
            None => false,
        }
    }
}

// ---------------------------------------------------------------------------
// Laws of the store model
// ---------------------------------------------------------------------------

/// Law: inserting under a key and then inserting again under the same key
/// has the second insert report the key taken and change nothing; the
/// stored entry is still the first one.
pub proof fn lemma_insert_once(
    m: Map<(int, int), PendingView>,
    k: (int, int),
    c: PendingView,
    c2: PendingView,
)
    requires
        !m.dom().contains(k),
    ensures
        ({
            let (m1, ok1) = try_insert_model(m, k, c);
            let (m2, ok2) = try_insert_model(m1, k, c2);
            ok1 && !ok2 && m2 == m1 && m1[k] == c
        }),
{
}

/// Law: a removal that obtains the entry leaves the key absent, so of any
/// number of removals under one key, at most one obtains an entry; once an
/// entry exists, exactly one does. This is the guard that makes the
/// success path and the timeout path mutually exclusive.
pub proof fn lemma_remove_once(m: Map<(int, int), PendingView>, k: (int, int))
    ensures
        !remove_model(m, k).0.dom().contains(k),
        ({
            let (m1, r1) = remove_model(m, k);
            let (m2, r2) = remove_model(m1, k);
            &&& r1 is Some ==> r2 is None && m2 == m1
            &&& m.dom().contains(k) ==> (r1 matches Some(p) && p == m[k] && r2 is None)
        }),
{
}

} // verus!
