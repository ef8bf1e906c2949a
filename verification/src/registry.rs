//! The table of live terminal sessions and what each request may do with it.
use vstd::prelude::*;
use crate::models::{
    ApiError, AuthUser, SessionInfo, SessionInfoView, TermSize, TerminalSession,
    TerminalSessionView, admin_user_view, is_api_error, STATUS_BAD_REQUEST, STATUS_FORBIDDEN,
    STATUS_NOT_FOUND,
};
use crate::text::{
    chars_of, str_eq, trim, trim_string, str_lt, str_less, lemma_str_lt_asym, lemma_str_lt_total,
    lemma_str_lt_trans,
};
use crate::fresh::{is_rfc3339_utc_text, now_rfc3339};

verus! {

/// How a listing describes a session: its record, the given type and working directory,
/// and the status `active`.
pub open spec fn info_of(
    s: TerminalSessionView,
    session_type: Seq<char>,
    cwd: Seq<char>,
) -> SessionInfoView {
    SessionInfoView {
        session_id: s.session_id,
        name: s.name,
        owner_uid: s.owner_uid,
        owner_user: s.owner_user,
        session_type,
        status: "active"@,
        created_at: s.created_at,
        last_activity: s.last_activity,
        size: s.size,
        cwd,
    }
}

/// How a listing describes a session.
pub fn session_info(s: &TerminalSession, session_type: &str, cwd: String) -> (r: SessionInfo)
    ensures
        r@ == info_of(s@, session_type@, cwd@),
        r@.session_id == s@.session_id && r@.name == s@.name && r@.owner_uid == s@.owner_uid
            && r@.owner_user == s@.owner_user,
        r@.created_at == s@.created_at && r@.last_activity == s@.last_activity,
        r@.size == s@.size && r@.session_type == session_type@ && r@.cwd == cwd@,
        r@.status == "active"@,
{
    SessionInfo {
        session_id: s.session_id.clone(),
        name: s.name.clone(),
        owner_uid: s.owner_uid,
        owner_user: s.owner_user.clone(),
        session_type: String::from_str(session_type),
        status: String::from_str("active"),
        created_at: s.created_at.clone(),
        last_activity: s.last_activity.clone(),
        size: s.size,
        cwd,
    }
}

/// The live sessions in a vector, with the map they stand for.
struct Table {
    sessions: Vec<TerminalSession>,
    contents: Ghost<Map<Seq<char>, TerminalSessionView>>,
}

/// What deleting a session did.
#[derive(Debug)]
pub enum DeleteOutcome {
    /// The session belongs to someone else; nothing changed.
    Forbidden,
    /// There is no such session.
    Missing,
    /// The session was removed; here is its record.
    Removed(TerminalSession),
}

/// Whether a request may attach to a session.
#[derive(Debug)]
pub enum ResumeAccess {
    /// No such session, or not the requester's: the two are not told apart.
    NotFound,
    /// The tmux session to attach to, the owner to run the client as, and the recorded size.
    Granted { tmux_session_name: String, owner: AuthUser, size: TermSize },
}

/// What a lookup of one session found.
#[derive(Debug)]
pub enum SessionLookup {
    Missing,
    Forbidden,
    Found(TerminalSession),
}

/// The longest session name accepted, in characters.
pub const MAX_SESSION_NAME_CHARS: usize = 32;

/// The table after a rename by `uid` of session `id` to `name` at time `now`: the trimmed
/// name must be 1 to 32 characters, the session must exist and be the requester's; only
/// then are its name and last activity changed.
pub open spec fn rename_post(
    before: Map<Seq<char>, TerminalSessionView>,
    after: Map<Seq<char>, TerminalSessionView>,
    id: Seq<char>,
    uid: i64,
    name: Seq<char>,
    now: Seq<char>,
    r: Result<SessionInfo, ApiError>,
) -> bool {
    let n = trim(name);
    if n.len() == 0 {
        after == before && (r matches Err(e) && is_api_error(e, STATUS_BAD_REQUEST, "名称不能为空"@))
    } else if n.len() > 32 {
        after == before && (r matches Err(e) && is_api_error(
            e,
            STATUS_BAD_REQUEST,
            "名称不能超过32个字符"@,
        ))
    } else if !before.contains_key(id) {
        after == before && (r matches Err(e) && is_api_error(e, STATUS_NOT_FOUND, "会话不存在"@))
    } else if before[id].owner_uid != uid {
        after == before && (r matches Err(e) && is_api_error(e, STATUS_FORBIDDEN, "无权修改"@))
    } else {
        let s = TerminalSessionView { name: n, last_activity: now, ..before[id] };
        after == before.insert(id, s) && (r matches Ok(info) && info@ == info_of(
            s,
            s.session_type,
            s.cwd,
        ))
    }
}

/// The table after a delete by `uid` of session `id`.
pub open spec fn delete_post(
    before: Map<Seq<char>, TerminalSessionView>,
    after: Map<Seq<char>, TerminalSessionView>,
    id: Seq<char>,
    uid: i64,
    r: DeleteOutcome,
) -> bool {
    if !before.contains_key(id) {
        after == before && r is Missing
    } else if before[id].owner_uid != uid {
        after == before && r is Forbidden
    } else {
        after == before.remove(id) && (r matches DeleteOutcome::Removed(s) && s@ == before[id])
    }
}

/// The table after a client of session `id` reported `size` at time `now`: the session, if
/// it exists, gets the size and the time as its last activity; nothing else changes.
pub open spec fn size_recorded(
    before: Map<Seq<char>, TerminalSessionView>,
    after: Map<Seq<char>, TerminalSessionView>,
    id: Seq<char>,
    size: TermSize,
    now: Seq<char>,
) -> bool {
    if before.contains_key(id) {
        after == before.insert(id, TerminalSessionView { size, last_activity: now, ..before[id] })
    } else {
        after == before
    }
}

/// What an attach request by `uid` for session `id` is granted.
pub open spec fn resume_post(
    table: Map<Seq<char>, TerminalSessionView>,
    id: Seq<char>,
    uid: i64,
    r: ResumeAccess,
) -> bool {
    if table.contains_key(id) && table[id].owner_uid == uid {
        r matches ResumeAccess::Granted { tmux_session_name, owner, size } && tmux_session_name@
            == table[id].tmux_session_name && owner@ == admin_user_view(
            table[id].owner_user,
            table[id].owner_uid,
        ) && size == table[id].size
    } else {
        r is NotFound
    }
}

impl Table {
    /// The sessions, by session id.
    pub closed spec fn view(&self) -> Map<Seq<char>, TerminalSessionView> {
        self.contents@
    }

    /// The vector holds each session of the map exactly once.
    pub closed spec fn wf(&self) -> bool {
        &&& forall|i: int, j: int|
            0 <= i < j < self.sessions@.len() ==> (#[trigger] self.sessions@[i]).session_id@
                != (#[trigger] self.sessions@[j]).session_id@
        &&& forall|i: int|
            0 <= i < self.sessions@.len() ==> self.contents@.contains_key(
                (#[trigger] self.sessions@[i]).session_id@,
            ) && self.contents@[self.sessions@[i].session_id@] == self.sessions@[i]@
        &&& forall|k: Seq<char>|
            #[trigger] self.contents@.contains_key(k) ==> exists|i: int|
                0 <= i < self.sessions@.len() && (#[trigger] self.sessions@[i]).session_id@ == k
    }

    /// Every session is filed under its own id.
    proof fn lemma_keys_are_ids(&self)
        requires
            self.wf(),
        ensures
            forall|k: Seq<char>| #[trigger]
                self@.contains_key(k) ==> self@[k].session_id == k,
    {
        assert forall|k: Seq<char>| #[trigger] self@.contains_key(k) implies self@[k].session_id
            == k by {
            let i = choose|i: int|
                0 <= i < self.sessions@.len() && (#[trigger] self.sessions@[i]).session_id@ == k;
            assert(self.contents@[self.sessions@[i].session_id@] == self.sessions@[i]@);
        }
    }

    /// An empty table.
    pub fn new() -> (t: Table)
        ensures
            t.wf(),
            t@ == Map::<Seq<char>, TerminalSessionView>::empty(),
    {
        Table { sessions: Vec::new(), contents: Ghost(Map::empty()) }
    }

    /// The number of sessions.
    pub fn len(&self) -> (n: usize)
        requires
            self.wf(),
        ensures
            n == self@.len(),
    {
        proof {
            self.lemma_len();
        }
        self.sessions.len()
    }

    proof fn lemma_len(&self)
        requires
            self.wf(),
        ensures
            self@.len() == self.sessions@.len(),
            self@.dom().finite(),
    {
        let ids = self.sessions@.map_values(|s: TerminalSession| s.session_id@);
        assert(self@.dom() =~= ids.to_set()) by {
            assert forall|k: Seq<char>| self@.dom().contains(k) implies ids.to_set().contains(k) by {
                let i = choose|i: int|
                    0 <= i < self.sessions@.len() && (#[trigger] self.sessions@[i]).session_id@
                        == k;
                assert(ids[i] == k);
            }
            assert forall|k: Seq<char>| ids.to_set().contains(k) implies self@.dom().contains(k) by {
                let i = choose|i: int| 0 <= i < ids.len() && ids[i] == k;
                assert(self.sessions@[i].session_id@ == k);
            }
        }
        assert(ids.no_duplicates()) by {
            assert forall|i: int, j: int| 0 <= i < ids.len() && 0 <= j < ids.len() && i != j implies ids[i]
                != ids[j] by {
                if i < j {
                    assert(self.sessions@[i].session_id@ != self.sessions@[j].session_id@);
                } else {
                    assert(self.sessions@[j].session_id@ != self.sessions@[i].session_id@);
                }
            }
        }
        ids.unique_seq_to_set();
    }

    fn position(&self, id: &str) -> (r: Option<usize>)
        requires
            self.wf(),
        ensures
            match r {
                Some(i) => i < self.sessions@.len() && self.sessions@[i as int].session_id@
                    == id@,
                None => !self@.contains_key(id@),
            },
    {
        let mut i: usize = 0;
        while i < self.sessions.len()
            invariant
                self.wf(),
                i <= self.sessions@.len(),
                forall|j: int| 0 <= j < i ==> (#[trigger] self.sessions@[j]).session_id@ != id@,
            decreases self.sessions.len() - i,
        {
            if str_eq(self.sessions[i].session_id.as_str(), id) {
                return Some(i);
            }
            i = i + 1;
        }
        None
    }

    /// Files a session under its id, replacing any session with the same id.
    pub fn insert(&mut self, session: TerminalSession)
        requires
            old(self).wf(),
        ensures
            final(self).wf(),
            final(self)@ == old(self)@.insert(session@.session_id, session@),
    {
        let ghost key = session@.session_id;
        let ghost value = session@;
        let ghost old_s = self.sessions@;
        let ghost old_m = self.contents@;
        let idx = match self.position(session.session_id.as_str()) {
            Some(i) => {
                self.sessions.set(i, session);
                i
            },
            None => {
                let n = self.sessions.len();
                self.sessions.push(session);
                n
            },
        };
        self.contents = Ghost(self.contents@.insert(key, value));
        proof {
            let new_s = self.sessions@;
            assert(new_s[idx as int]@ == value);
            assert forall|i: int| 0 <= i < new_s.len() && i != idx implies new_s[i] == old_s[i] by {}
            assert forall|i: int| 0 <= i < new_s.len() && i != idx implies (#[trigger] new_s[i]).session_id@
                != key by {
                if idx < old_s.len() {
                    assert(old_s[idx as int].session_id@ == key);
                    if i < idx {
                        assert(old_s[i].session_id@ != old_s[idx as int].session_id@);
                    } else {
                        assert(old_s[idx as int].session_id@ != old_s[i].session_id@);
                    }
                } else {
                    assert(old_m.contains_key(old_s[i].session_id@));
                }
            }
            assert forall|a: int, b: int|
                0 <= a < b < new_s.len() implies (#[trigger] new_s[a]).session_id@ != (#[trigger] new_s[
                b
            ]).session_id@ by {
                if a != idx && b != idx {
                    assert(new_s[a] == old_s[a]);
                    assert(new_s[b] == old_s[b]);
                }
            }
            assert forall|a: int| 0 <= a < new_s.len() implies self.contents@.contains_key(
                (#[trigger] new_s[a]).session_id@,
            ) && self.contents@[new_s[a].session_id@] == new_s[a]@ by {
                if a != idx {
                    assert(new_s[a] == old_s[a]);
                }
            }
            assert forall|k: Seq<char>| #[trigger]
                self.contents@.contains_key(k) implies exists|i: int|
                0 <= i < new_s.len() && (#[trigger] new_s[i]).session_id@ == k by {
                if k == key {
                    assert(new_s[idx as int].session_id@ == k);
                } else {
                    assert(old_m.contains_key(k));
                    let i = choose|i: int|
                        0 <= i < old_s.len() && (#[trigger] old_s[i]).session_id@ == k;
                    if i == idx {
                        assert(old_s[idx as int].session_id@ == key);
                    }
                    assert(new_s[i] == old_s[i]);
                }
            }
        }
    }

    /// The session filed under `id`.
    pub fn get(&self, id: &str) -> (r: Option<TerminalSession>)
        requires
            self.wf(),
        ensures
            match r {
                Some(s) => self@.contains_key(id@) && s@ == self@[id@],
                None => !self@.contains_key(id@),
            },
    {
        match self.position(id) {
            Some(i) => Some(self.sessions[i].copied()),
            None => None,
        }
    }

    /// Removes the session filed under `id`, returning it.
    pub fn remove(&mut self, id: &str) -> (r: Option<TerminalSession>)
        requires
            old(self).wf(),
        ensures
            final(self).wf(),
            final(self)@ == old(self)@.remove(id@),
            match r {
                Some(s) => old(self)@.contains_key(id@) && s@ == old(self)@[id@],
                None => !old(self)@.contains_key(id@),
            },
    {
        match self.position(id) {
            Some(i) => {
                let s = self.sessions.remove(i);
                self.contents = Ghost(self.contents@.remove(id@));
                proof {
                    let old_s = old(self).sessions@;
                    assert forall|a: int, b: int|
                        0 <= a < b < self.sessions@.len() implies (#[trigger] self.sessions@[a]).session_id@
                        != (#[trigger] self.sessions@[b]).session_id@ by {
                        let a0 = if a < i { a } else { a + 1 };
                        let b0 = if b < i { b } else { b + 1 };
                        assert(self.sessions@[a] == old_s[a0]);
                        assert(self.sessions@[b] == old_s[b0]);
                    }
                    assert forall|a: int| 0 <= a < self.sessions@.len() implies self.contents@.contains_key(
                        (#[trigger] self.sessions@[a]).session_id@,
                    ) && self.contents@[self.sessions@[a].session_id@] == self.sessions@[a]@ by {
                        let a0 = if a < i { a } else { a + 1 };
                        assert(self.sessions@[a] == old_s[a0]);
                        assert(old_s[a0].session_id@ != old_s[i as int].session_id@);
                    }
                    assert forall|k: Seq<char>| #[trigger]
                        self.contents@.contains_key(k) implies exists|a: int|
                        0 <= a < self.sessions@.len() && (#[trigger] self.sessions@[a]).session_id@
                            == k by {
                        let a0 = choose|a0: int|
                            0 <= a0 < old_s.len() && (#[trigger] old_s[a0]).session_id@ == k;
                        assert(a0 != i);
                        let a = if a0 < i { a0 } else { a0 - 1 };
                        assert(self.sessions@[a] == old_s[a0]);
                    }
                }
                Some(s)
            },
            None => {
                assert(self.contents@.remove(id@) =~= self.contents@);
                None
            },
        }
    }

    /// Every session, each once (the table's contents for saving).
    pub fn snapshot(&self) -> (r: Vec<TerminalSession>)
        requires
            self.wf(),
        ensures
            r@.len() == self@.len(),
            is_snapshot_of(self@, r@),
    {
        proof {
            self.lemma_len();
        }
        let mut out: Vec<TerminalSession> = Vec::new();
        let mut i: usize = 0;
        while i < self.sessions.len()
            invariant
                self.wf(),
                i <= self.sessions@.len(),
                out@.len() == i,
                forall|j: int| 0 <= j < i ==> (#[trigger] out@[j])@ == self.sessions@[j]@,
            decreases self.sessions.len() - i,
        {
            out.push(self.sessions[i].copied());
            i = i + 1;
        }
        proof {
            assert forall|k: Seq<char>| #[trigger] self@.contains_key(k) implies exists|j: int|
                0 <= j < out@.len() && (#[trigger] out@[j]).session_id@ == k by {
                let j = choose|j: int|
                    0 <= j < self.sessions@.len() && (#[trigger] self.sessions@[j]).session_id@
                        == k;
                assert(out@[j]@ == self.sessions@[j]@);
            }
            assert forall|j: int| 0 <= j < out@.len() implies self@.contains_key(
                (#[trigger] out@[j]).session_id@,
            ) && self@[out@[j].session_id@] == out@[j]@ by {
                assert(out@[j]@ == self.sessions@[j]@);
            }
            assert forall|a: int, b: int|
                0 <= a < b < out@.len() implies (#[trigger] out@[a]).session_id@ != (#[trigger] out@[
                b
            ]).session_id@ by {
                assert(out@[a]@ == self.sessions@[a]@);
                assert(out@[b]@ == self.sessions@[b]@);
            }
        }
        out
    }

    /// The sessions that belong to `uid`, each once.
    pub fn owned_by(&self, uid: i64) -> (r: Vec<TerminalSession>)
        requires
            self.wf(),
        ensures
            forall|i: int|
                0 <= i < r@.len() ==> self@.contains_key((#[trigger] r@[i]).session_id@)
                    && self@[r@[i].session_id@] == r@[i]@ && r@[i].owner_uid == uid,
            forall|k: Seq<char>| #[trigger]
                self@.contains_key(k) && self@[k].owner_uid == uid ==> exists|i: int|
                    0 <= i < r@.len() && (#[trigger] r@[i]).session_id@ == k,
            forall|i: int, j: int|
                0 <= i < j < r@.len() ==> (#[trigger] r@[i]).session_id@ != (#[trigger] r@[
                    j
                ]).session_id@,
    {
        let mut out: Vec<TerminalSession> = Vec::new();
        let ghost picked: Seq<int> = Seq::empty();
        let mut i: usize = 0;
        while i < self.sessions.len()
            invariant
                self.wf(),
                i <= self.sessions@.len(),
                out@.len() == picked.len(),
                forall|a: int|
                    0 <= a < picked.len() ==> 0 <= #[trigger] picked[a] < i && out@[a]@
                        == self.sessions@[picked[a]]@ && out@[a].owner_uid == uid,
                forall|a: int, b: int| 0 <= a < b < picked.len() ==> picked[a] < picked[b],
                forall|j: int|
                    0 <= j < i && (#[trigger] self.sessions@[j]).owner_uid == uid ==> exists|a: int|
                        0 <= a < picked.len() && picked[a] == j,
            decreases self.sessions.len() - i,
        {
            let ghost old_picked = picked;
            if self.sessions[i].owner_uid == uid {
                out.push(self.sessions[i].copied());
                proof {
                    picked = picked.push(i as int);
                    assert(picked[picked.len() - 1] == i);
                }
            }
            proof {
                assert forall|j: int|
                    0 <= j < i + 1 && (#[trigger] self.sessions@[j]).owner_uid == uid implies exists|a: int|
                    0 <= a < picked.len() && picked[a] == j by {
                    if j < i {
                        let a = choose|a: int| 0 <= a < old_picked.len() && old_picked[a] == j;
                        assert(picked[a] == old_picked[a]);
                    } else {
                        assert(picked[picked.len() - 1] == j);
                    }
                }
            }
            i = i + 1;
        }
        proof {
            assert forall|a: int|
                0 <= a < out@.len() implies self@.contains_key((#[trigger] out@[a]).session_id@)
                && self@[out@[a].session_id@] == out@[a]@ && out@[a].owner_uid == uid by {
                assert(out@[a]@ == self.sessions@[picked[a]]@);
            }
            assert forall|k: Seq<char>| #[trigger]
                self@.contains_key(k) && self@[k].owner_uid == uid implies exists|a: int|
                0 <= a < out@.len() && (#[trigger] out@[a]).session_id@ == k by {
                let j = choose|j: int|
                    0 <= j < self.sessions@.len() && (#[trigger] self.sessions@[j]).session_id@
                        == k;
                assert(self.sessions@[j].owner_uid == uid);
                let a = choose|a: int| 0 <= a < picked.len() && picked[a] == j;
                assert(out@[a]@ == self.sessions@[j]@);
            }
            assert forall|a: int, b: int|
                0 <= a < b < out@.len() implies (#[trigger] out@[a]).session_id@ != (#[trigger] out@[
                b
            ]).session_id@ by {
                assert(picked[a] < picked[b]);
                assert(out@[a]@ == self.sessions@[picked[a]]@);
                assert(out@[b]@ == self.sessions@[picked[b]]@);
            }
        }
        out
    }

    /// A table holding these sessions, a later one replacing an earlier one with the same id.
    pub fn from_sessions(sessions: Vec<TerminalSession>) -> (t: Table)
        ensures
            t.wf(),
            t@ == sessions_map(sessions@),
    {
        let mut t = Table::new();
        let ghost all = sessions@;
        let mut rest = sessions;
        let ghost mut k: int = 0;
        assert(all.take(0) =~= Seq::<TerminalSession>::empty());
        assert(all.skip(0) =~= all);
        while rest.len() > 0
            invariant
                t.wf(),
                0 <= k <= all.len(),
                rest@ == all.skip(k),
                t@ == sessions_map(all.take(k)),
            decreases rest.len(),
        {
            let s = rest.remove(0);
            proof {
                assert(s == all[k]);
                assert(all.take(k + 1).drop_last() =~= all.take(k));
                assert(all.skip(k).remove(0) =~= all.skip(k + 1));
            }
            t.insert(s);
            proof {
                k = k + 1;
            }
        }
        assert(all.take(k) =~= all);
        t
    }

    /// Renames session `id` for the requester `uid` now: the clock gives its last activity.
    pub fn rename(&mut self, id: &str, uid: i64, name: &str) -> (r: Result<SessionInfo, ApiError>)
        requires
            old(self).wf(),
        ensures
            final(self).wf(),
            exists|now: Seq<char>|
                is_rfc3339_utc_text(now) && rename_post(old(self)@, final(self)@, id@, uid, name@, now, r),
    {
        let now = now_rfc3339();
        let ghost stamp = now@;
        let r = self.rename_at(id, uid, name, now);
        assert(is_rfc3339_utc_text(stamp) && rename_post(old(self)@, self@, id@, uid, name@, stamp, r));
        r
    }

    /// Renames session `id` for the requester `uid` at time `now`.
    pub fn rename_at(&mut self, id: &str, uid: i64, name: &str, now: String) -> (r: Result<
        SessionInfo,
        ApiError,
    >)
        requires
            old(self).wf(),
        ensures
            final(self).wf(),
            rename_post(old(self)@, final(self)@, id@, uid, name@, now@, r),
    {
        let trimmed = trim_string(name);
        if trimmed.as_str().is_empty() {
            return Err(ApiError::new(String::from_str("名称不能为空")));
        }
        let count = chars_of(trimmed.as_str()).len();
        if count > MAX_SESSION_NAME_CHARS {
            return Err(ApiError::new(String::from_str("名称不能超过32个字符")));
        }
        let current = match self.get(id) {
            Some(s) => s,
            None => {
                return Err(ApiError::not_found(String::from_str("会话不存在")));
            },
        };
        if current.owner_uid != uid {
            return Err(ApiError::forbidden(String::from_str("无权修改")));
        }
        proof {
            self.lemma_keys_are_ids();
        }
        let updated = TerminalSession { name: trimmed, last_activity: now, ..current };
        let info = session_info(&updated, updated.session_type.as_str(), updated.cwd.clone());
        self.insert(updated);
        Ok(info)
    }

    /// Deletes session `id` for the requester `uid`; someone else's session stays.
    pub fn delete_owned(&mut self, id: &str, uid: i64) -> (r: DeleteOutcome)
        requires
            old(self).wf(),
        ensures
            final(self).wf(),
            delete_post(old(self)@, final(self)@, id@, uid, r),
    {
        match self.get(id) {
            Some(s) => {
                if s.owner_uid != uid {
                    return DeleteOutcome::Forbidden;
                }
            },
            None => {
                return DeleteOutcome::Missing;
            },
        }
        match self.remove(id) {
            Some(s) => DeleteOutcome::Removed(s),
            None => DeleteOutcome::Missing,
        }
    }

    /// Whether `uid` may attach to session `id`, and to what.
    pub fn resume_access(&self, id: &str, uid: i64) -> (r: ResumeAccess)
        requires
            self.wf(),
        ensures
            resume_post(self@, id@, uid, r),
    {
        match self.get(id) {
            Some(s) => {
                if s.owner_uid != uid {
                    ResumeAccess::NotFound
                } else {
                    ResumeAccess::Granted {
                        tmux_session_name: s.tmux_session_name,
                        owner: AuthUser::admin(s.owner_user, s.owner_uid),
                        size: s.size,
                    }
                }
            },
            None => ResumeAccess::NotFound,
        }
    }

    /// Session `id` as the requester `uid` may see it.
    pub fn lookup(&self, id: &str, uid: i64) -> (r: SessionLookup)
        requires
            self.wf(),
        ensures
            match r {
                SessionLookup::Missing => !self@.contains_key(id@),
                SessionLookup::Forbidden => self@.contains_key(id@) && self@[id@].owner_uid != uid,
                SessionLookup::Found(s) => self@.contains_key(id@) && self@[id@].owner_uid == uid
                    && s@ == self@[id@],
            },
    {
        match self.get(id) {
            Some(s) => {
                if s.owner_uid != uid {
                    SessionLookup::Forbidden
                } else {
                    SessionLookup::Found(s)
                }
            },
            None => SessionLookup::Missing,
        }
    }

    /// Records the size a client reported for session `id`, now, if it still exists.
    pub fn record_size(&mut self, id: &str, size: TermSize)
        requires
            old(self).wf(),
        ensures
            final(self).wf(),
            exists|now: Seq<char>|
                is_rfc3339_utc_text(now) && size_recorded(old(self)@, final(self)@, id@, size, now),
    {
        let now = now_rfc3339();
        let ghost stamp = now@;
        self.record_size_at(id, size, now);
        assert(is_rfc3339_utc_text(stamp) && size_recorded(old(self)@, self@, id@, size, stamp));
    }

    /// Records the size a client reported for session `id`, at time `now`, if it still exists.
    pub fn record_size_at(&mut self, id: &str, size: TermSize, now: String)
        requires
            old(self).wf(),
        ensures
            final(self).wf(),
            size_recorded(old(self)@, final(self)@, id@, size, now@),
    {
        match self.get(id) {
            Some(s) => {
                proof {
                    self.lemma_keys_are_ids();
                }
                let updated = TerminalSession { size, last_activity: now, ..s };
                self.insert(updated);
            },
            None => {},
        }
    }
}

/// The live sessions, each under its session id.
pub struct SessionTable {
    table: Table,
}

impl SessionTable {
    /// The sessions, by session id.
    pub closed spec fn view(&self) -> Map<Seq<char>, TerminalSessionView> {
        self.table@
    }

    /// The vector holds each session of the map exactly once.
    #[verifier::type_invariant]
    closed spec fn inv(self) -> bool {
        self.table.wf()
    }

    /// An empty table.
    pub fn new() -> (t: SessionTable)
        ensures
            t@ == Map::<Seq<char>, TerminalSessionView>::empty(),
    {
        SessionTable { table: Table::new() }
    }

    /// The number of sessions.
    pub fn len(&self) -> (n: usize)
        ensures
            n == self@.len(),
    {
        proof {
            use_type_invariant(self);
        }
        self.table.len()
    }

    /// Files a session under its id, replacing any session with the same id.
    pub fn insert(&mut self, session: TerminalSession)
        ensures
            final(self)@ == old(self)@.insert(session@.session_id, session@),
    {
        proof {
            use_type_invariant(&*self);
        }
        let mut t = Table::new();
        std::mem::swap(&mut t, &mut self.table);
        t.insert(session);
        self.table = t;
    }

    /// The session filed under `id`.
    pub fn get(&self, id: &str) -> (r: Option<TerminalSession>)
        ensures
            match r {
                Some(s) => self@.contains_key(id@) && s@ == self@[id@],
                None => !self@.contains_key(id@),
            },
    {
        proof {
            use_type_invariant(self);
        }
        self.table.get(id)
    }

    /// Removes the session filed under `id`, returning it.
    pub fn remove(&mut self, id: &str) -> (r: Option<TerminalSession>)
        ensures
            final(self)@ == old(self)@.remove(id@),
            match r {
                Some(s) => old(self)@.contains_key(id@) && s@ == old(self)@[id@],
                None => !old(self)@.contains_key(id@),
            },
    {
        proof {
            use_type_invariant(&*self);
        }
        let mut t = Table::new();
        std::mem::swap(&mut t, &mut self.table);
        let r = t.remove(id);
        self.table = t;
        r
    }

    /// Every session, each once (the table's contents for saving).
    pub fn snapshot(&self) -> (r: Vec<TerminalSession>)
        ensures
            r@.len() == self@.len(),
            is_snapshot_of(self@, r@),
    {
        proof {
            use_type_invariant(self);
        }
        self.table.snapshot()
    }

    /// The sessions that belong to `uid`, each once.
    pub fn owned_by(&self, uid: i64) -> (r: Vec<TerminalSession>)
        ensures
            forall|i: int|
                0 <= i < r@.len() ==> self@.contains_key((#[trigger] r@[i]).session_id@)
                    && self@[r@[i].session_id@] == r@[i]@ && r@[i].owner_uid == uid,
            forall|k: Seq<char>| #[trigger]
                self@.contains_key(k) && self@[k].owner_uid == uid ==> exists|i: int|
                    0 <= i < r@.len() && (#[trigger] r@[i]).session_id@ == k,
            forall|i: int, j: int|
                0 <= i < j < r@.len() ==> (#[trigger] r@[i]).session_id@ != (#[trigger] r@[
                    j
                ]).session_id@,
    {
        proof {
            use_type_invariant(self);
        }
        self.table.owned_by(uid)
    }

    /// A table holding these sessions, a later one replacing an earlier one with the same id.
    pub fn from_sessions(sessions: Vec<TerminalSession>) -> (t: SessionTable)
        ensures
            t@ == sessions_map(sessions@),
    {
        SessionTable { table: Table::from_sessions(sessions) }
    }

    /// Renames session `id` for the requester `uid` now: the clock gives its last activity.
    pub fn rename(&mut self, id: &str, uid: i64, name: &str) -> (r: Result<SessionInfo, ApiError>)
        ensures
            exists|now: Seq<char>|
                is_rfc3339_utc_text(now) && rename_post(old(self)@, final(self)@, id@, uid, name@, now, r),
    {
        proof {
            use_type_invariant(&*self);
        }
        let mut t = Table::new();
        std::mem::swap(&mut t, &mut self.table);
        let r = t.rename(id, uid, name);
        self.table = t;
        r
    }

    /// Renames session `id` for the requester `uid` at time `now`.
    pub fn rename_at(&mut self, id: &str, uid: i64, name: &str, now: String) -> (r: Result<
        SessionInfo,
        ApiError,
    >)
        ensures
            rename_post(old(self)@, final(self)@, id@, uid, name@, now@, r),
    {
        proof {
            use_type_invariant(&*self);
        }
        let mut t = Table::new();
        std::mem::swap(&mut t, &mut self.table);
        let r = t.rename_at(id, uid, name, now);
        self.table = t;
        r
    }

    /// Deletes session `id` for the requester `uid`; someone else's session stays.
    pub fn delete_owned(&mut self, id: &str, uid: i64) -> (r: DeleteOutcome)
        ensures
            delete_post(old(self)@, final(self)@, id@, uid, r),
    {
        proof {
            use_type_invariant(&*self);
        }
        let mut t = Table::new();
        std::mem::swap(&mut t, &mut self.table);
        let r = t.delete_owned(id, uid);
        self.table = t;
        r
    }

    /// Whether `uid` may attach to session `id`, and to what.
    pub fn resume_access(&self, id: &str, uid: i64) -> (r: ResumeAccess)
        ensures
            resume_post(self@, id@, uid, r),
    {
        proof {
            use_type_invariant(self);
        }
        self.table.resume_access(id, uid)
    }

    /// Session `id` as the requester `uid` may see it.
    pub fn lookup(&self, id: &str, uid: i64) -> (r: SessionLookup)
        ensures
            match r {
                SessionLookup::Missing => !self@.contains_key(id@),
                SessionLookup::Forbidden => self@.contains_key(id@) && self@[id@].owner_uid != uid,
                SessionLookup::Found(s) => self@.contains_key(id@) && self@[id@].owner_uid == uid
                    && s@ == self@[id@],
            },
    {
        proof {
            use_type_invariant(self);
        }
        self.table.lookup(id, uid)
    }

    /// Records the size a client reported for session `id`, now, if it still exists.
    pub fn record_size(&mut self, id: &str, size: TermSize)
        ensures
            exists|now: Seq<char>|
                is_rfc3339_utc_text(now) && size_recorded(old(self)@, final(self)@, id@, size, now),
    {
        proof {
            use_type_invariant(&*self);
        }
        let mut t = Table::new();
        std::mem::swap(&mut t, &mut self.table);
        t.record_size(id, size);
        self.table = t;
    }

    /// Records the size a client reported for session `id`, at time `now`, if it still exists.
    pub fn record_size_at(&mut self, id: &str, size: TermSize, now: String)
        ensures
            size_recorded(old(self)@, final(self)@, id@, size, now@),
    {
        proof {
            use_type_invariant(&*self);
        }
        let mut t = Table::new();
        std::mem::swap(&mut t, &mut self.table);
        t.record_size_at(id, size, now);
        self.table = t;
    }
}

/// The table that a list of sessions gives when filed in order.
pub open spec fn sessions_map(s: Seq<TerminalSession>) -> Map<Seq<char>, TerminalSessionView>
    decreases s.len(),
{
    if s.len() == 0 {
        Map::empty()
    } else {
        sessions_map(s.drop_last()).insert(s.last().session_id@, s.last()@)
    }
}

/// A list of sessions saved from a table: each of the table's sessions exactly once.
pub open spec fn is_snapshot_of(
    table: Map<Seq<char>, TerminalSessionView>,
    saved: Seq<TerminalSession>,
) -> bool {
    &&& forall|i: int, j: int|
        0 <= i < j < saved.len() ==> (#[trigger] saved[i]).session_id@ != (#[trigger] saved[
            j
        ]).session_id@
    &&& forall|i: int|
        0 <= i < saved.len() ==> table.contains_key((#[trigger] saved[i]).session_id@)
            && table[saved[i].session_id@] == saved[i]@
    &&& forall|k: Seq<char>| #[trigger]
        table.contains_key(k) ==> exists|i: int|
            0 <= i < saved.len() && (#[trigger] saved[i]).session_id@ == k
}

/// What is saved is what comes back: the sessions saved from a table, filed in order when
/// the service starts again, give the same table.
pub proof fn lemma_restore_after_save(
    table: Map<Seq<char>, TerminalSessionView>,
    saved: Seq<TerminalSession>,
)
    requires
        is_snapshot_of(table, saved),
    ensures
        sessions_map(saved) == table,
    decreases saved.len(),
{
    if saved.len() == 0 {
        assert forall|k: Seq<char>| !table.contains_key(k) by {
            if table.contains_key(k) {
                let i = choose|i: int| 0 <= i < saved.len() && (#[trigger] saved[i]).session_id@ == k;
            }
        }
        assert(table =~= Map::empty());
    } else {
        let n = saved.len() - 1;
        let last = saved[n];
        let front = saved.drop_last();
        let rest = table.remove(last.session_id@);
        assert forall|i: int, j: int|
            0 <= i < j < front.len() implies (#[trigger] front[i]).session_id@ != (#[trigger] front[
                j
            ]).session_id@ by {
            assert(front[i] == saved[i] && front[j] == saved[j]);
        }
        assert forall|i: int|
            0 <= i < front.len() implies rest.contains_key((#[trigger] front[i]).session_id@)
            && rest[front[i].session_id@] == front[i]@ by {
            assert(front[i] == saved[i]);
            assert(saved[i].session_id@ != saved[n].session_id@);
        }
        assert forall|k: Seq<char>| #[trigger] rest.contains_key(k) implies exists|i: int|
            0 <= i < front.len() && (#[trigger] front[i]).session_id@ == k by {
            let i = choose|i: int| 0 <= i < saved.len() && (#[trigger] saved[i]).session_id@ == k;
            assert(i != n);
            assert(front[i] == saved[i]);
        }
        lemma_restore_after_save(rest, front);
        assert(sessions_map(saved) == rest.insert(last.session_id@, last@));
        assert(table =~= rest.insert(last.session_id@, last@));
    }
}

/// How a listing describes a session: the record's own id, name, owner, creation and
/// last-activity times and size, the given type and working directory, status `active`.
pub proof fn lemma_listing_entry(s: TerminalSessionView, session_type: Seq<char>, cwd: Seq<char>)
    ensures
        info_of(s, session_type, cwd).session_id == s.session_id,
        info_of(s, session_type, cwd).name == s.name,
        info_of(s, session_type, cwd).owner_uid == s.owner_uid,
        info_of(s, session_type, cwd).owner_user == s.owner_user,
        info_of(s, session_type, cwd).created_at == s.created_at,
        info_of(s, session_type, cwd).last_activity == s.last_activity,
        info_of(s, session_type, cwd).size == s.size,
        info_of(s, session_type, cwd).session_type == session_type,
        info_of(s, session_type, cwd).cwd == cwd,
        info_of(s, session_type, cwd).status == "active"@,
{
}

/// The listing describes each session given, in its own terms: entry `i` carries session
/// `i`'s id and creation time, as a `local` session in the reported directory.
pub proof fn lemma_listing_describes(entries: Seq<(TerminalSession, String)>, i: int)
    requires
        0 <= i < entries.len(),
    ensures
        listing_infos(entries).len() == entries.len(),
        listing_infos(entries)[i].session_id == entries[i].0@.session_id,
        listing_infos(entries)[i].created_at == entries[i].0@.created_at,
        listing_infos(entries)[i].last_activity == entries[i].0@.last_activity,
        listing_infos(entries)[i].owner_uid == entries[i].0@.owner_uid,
        listing_infos(entries)[i].session_type == "local"@,
        listing_infos(entries)[i].cwd == entries[i].1@,
{
}

/// A rename succeeds exactly for the owner of an existing session with a name of 1 to 32
/// characters once trimmed; then only that session changes, to the trimmed name and the
/// new time, and the answer describes it. Otherwise nothing changes and the answer says why.
pub proof fn lemma_rename_meaning(
    before: Map<Seq<char>, TerminalSessionView>,
    after: Map<Seq<char>, TerminalSessionView>,
    id: Seq<char>,
    uid: i64,
    name: Seq<char>,
    now: Seq<char>,
    r: Result<SessionInfo, ApiError>,
)
    requires
        rename_post(before, after, id, uid, name, now, r),
    ensures
        r is Ok <==> (1 <= trim(name).len() <= 32 && before.contains_key(id) && before[id].owner_uid
            == uid),
        r is Err ==> after == before,
        trim(name).len() == 0 ==> (r matches Err(e) && e.status == 400 && e.message@ == "名称不能为空"@),
        trim(name).len() > 32 ==> (r matches Err(e) && e.status == 400 && e.message@
            == "名称不能超过32个字符"@),
        1 <= trim(name).len() <= 32 && !before.contains_key(id) ==> (r matches Err(e) && e.status
            == 404 && e.message@ == "会话不存在"@),
        1 <= trim(name).len() <= 32 && before.contains_key(id) && before[id].owner_uid != uid ==> (
        r matches Err(e) && e.status == 403 && e.message@ == "无权修改"@),
        r is Ok ==> {
            &&& after.contains_key(id)
            &&& after[id].name == trim(name)
            &&& after[id].last_activity == now
            &&& after[id].session_id == before[id].session_id
            &&& after[id].created_at == before[id].created_at
            &&& after[id].owner_uid == before[id].owner_uid
            &&& after[id].owner_user == before[id].owner_user
            &&& after[id].size == before[id].size
            &&& after[id].tmux_session_name == before[id].tmux_session_name
            &&& after[id].cwd == before[id].cwd
            &&& after.remove(id) == before.remove(id)
        },
        r matches Ok(info) ==> info@.name == trim(name) && info@.session_id == before[id].session_id
            && info@.created_at == before[id].created_at && info@.last_activity == now
            && info@.owner_uid == uid,
{
    if r is Ok {
        assert(after.remove(id) =~= before.remove(id));
    }
}

/// A delete removes exactly the requester's own session and hands it back; someone
/// else's session, or a missing one, leaves the table as it was.
pub proof fn lemma_delete_meaning(
    before: Map<Seq<char>, TerminalSessionView>,
    after: Map<Seq<char>, TerminalSessionView>,
    id: Seq<char>,
    uid: i64,
    r: DeleteOutcome,
)
    requires
        delete_post(before, after, id, uid, r),
    ensures
        r is Removed <==> before.contains_key(id) && before[id].owner_uid == uid,
        r is Forbidden <==> before.contains_key(id) && before[id].owner_uid != uid,
        r is Missing <==> !before.contains_key(id),
        r matches DeleteOutcome::Removed(s) ==> s@ == before[id] && !after.contains_key(id) && forall|
            k: Seq<char>,
        | k != id ==> (#[trigger] after.contains_key(k) <==> before.contains_key(k)) && (
        after.contains_key(k) ==> after[k] == before[k]),
        !(r is Removed) ==> after == before,
{
}

/// Only the owner may attach to a session, and is given its tmux session, the owner's
/// identity and the recorded size; any other request is answered as for no session.
pub proof fn lemma_resume_meaning(
    table: Map<Seq<char>, TerminalSessionView>,
    id: Seq<char>,
    uid: i64,
    r: ResumeAccess,
)
    requires
        resume_post(table, id, uid, r),
    ensures
        r is Granted <==> table.contains_key(id) && table[id].owner_uid == uid,
        r matches ResumeAccess::Granted { tmux_session_name, owner, size } ==> tmux_session_name@
            == table[id].tmux_session_name && owner.uid == uid && owner.user@ == table[id].owner_user
            && size == table[id].size,
{
}

/// Recording a size changes only that session's size and last activity, and nothing when
/// the session is gone.
pub proof fn lemma_size_recorded_meaning(
    before: Map<Seq<char>, TerminalSessionView>,
    after: Map<Seq<char>, TerminalSessionView>,
    id: Seq<char>,
    size: TermSize,
    now: Seq<char>,
)
    requires
        size_recorded(before, after, id, size, now),
    ensures
        !before.contains_key(id) ==> after == before,
        before.contains_key(id) ==> {
            &&& after.contains_key(id)
            &&& after[id].size == size
            &&& after[id].last_activity == now
            &&& after[id].name == before[id].name
            &&& after[id].created_at == before[id].created_at
            &&& after[id].owner_uid == before[id].owner_uid
            &&& after[id].session_id == before[id].session_id
            &&& after[id].tmux_session_name == before[id].tmux_session_name
            &&& after.remove(id) == before.remove(id)
        },
{
    if before.contains_key(id) {
        assert(after.remove(id) =~= before.remove(id));
    }
}

/// Nobody can rename or delete a session that is not theirs: such a request is refused
/// and leaves the table as it was.
pub proof fn lemma_foreign_session_untouched(
    before: Map<Seq<char>, TerminalSessionView>,
    after_rename: Map<Seq<char>, TerminalSessionView>,
    after_delete: Map<Seq<char>, TerminalSessionView>,
    id: Seq<char>,
    uid: i64,
    name: Seq<char>,
    now: Seq<char>,
    renamed: Result<SessionInfo, ApiError>,
    deleted: DeleteOutcome,
)
    requires
        before.contains_key(id),
        before[id].owner_uid != uid,
        rename_post(before, after_rename, id, uid, name, now, renamed),
        delete_post(before, after_delete, id, uid, deleted),
    ensures
        after_rename == before,
        renamed is Err,
        after_delete == before,
        deleted is Forbidden,
{
}

/// An attach request for someone else's session is answered exactly as one for a session
/// that does not exist, so sessions cannot be probed.
pub proof fn lemma_foreign_resume_like_missing(
    table: Map<Seq<char>, TerminalSessionView>,
    id: Seq<char>,
    missing: Seq<char>,
    uid: i64,
    foreign: ResumeAccess,
    absent: ResumeAccess,
)
    requires
        table.contains_key(id),
        table[id].owner_uid != uid,
        !table.contains_key(missing),
        resume_post(table, id, uid, foreign),
        resume_post(table, missing, uid, absent),
    ensures
        foreign is NotFound,
        absent is NotFound,
{
}

/// A rename that is accepted is read back: the session then carries the trimmed name.
pub proof fn lemma_rename_read_back(
    before: Map<Seq<char>, TerminalSessionView>,
    after: Map<Seq<char>, TerminalSessionView>,
    id: Seq<char>,
    uid: i64,
    name: Seq<char>,
    now: Seq<char>,
    r: Result<SessionInfo, ApiError>,
)
    requires
        rename_post(before, after, id, uid, name, now, r),
        r is Ok,
    ensures
        after.contains_key(id),
        after[id].name == trim(name),
        1 <= after[id].name.len() <= 32,
        after[id].owner_uid == uid,
        after.remove(id) == before.remove(id),
{
    assert(after.remove(id) =~= before.remove(id));
}


// ─── Listing order ──────────────────────────────────────────────────────

/// The views of a list of session descriptions.
pub open spec fn infos_view(s: Seq<SessionInfo>) -> Seq<SessionInfoView> {
    s.map_values(|x: SessionInfo| x@)
}

/// Ordered by creation time: no entry was created before one ahead of it.
pub open spec fn sorted_by_created(s: Seq<SessionInfoView>) -> bool {
    forall|i: int, j: int|
        0 <= i < j < s.len() ==> !str_lt((#[trigger] s[j]).created_at, (#[trigger] s[i]).created_at)
}

/// The descriptions created at time `t`.
pub open spec fn created_at_is(t: Seq<char>) -> spec_fn(SessionInfoView) -> bool {
    |x: SessionInfoView| x.created_at == t
}

/// Inserting `x` into a sorted list just before the first later entry puts it after every
/// entry created at the same time.
proof fn lemma_insert_after_ties(o: Seq<SessionInfoView>, p: int, x: SessionInfoView, t: Seq<char>)
    requires
        0 <= p <= o.len(),
        sorted_by_created(o),
        p < o.len() ==> str_lt(x.created_at, o[p].created_at),
    ensures
        o.insert(p, x).filter(created_at_is(t)) == (if x.created_at == t {
            o.filter(created_at_is(t)).push(x)
        } else {
            o.filter(created_at_is(t))
        }),
{
    let pred = created_at_is(t);
    let a = o.take(p);
    let b = o.skip(p);
    let one = seq![x];
    assert(o =~= a + b);
    assert(o.insert(p, x) =~= (a + one) + b);
    Seq::filter_distributes_over_add(a, b, pred);
    Seq::filter_distributes_over_add(a + one, b, pred);
    Seq::filter_distributes_over_add(a, one, pred);
    assert(one =~= Seq::<SessionInfoView>::empty().push(x));
    Seq::<SessionInfoView>::empty().lemma_filter_push(x, pred);
    reveal(Seq::filter);
    assert(Seq::<SessionInfoView>::empty().filter(pred) =~= Seq::<SessionInfoView>::empty());
    if x.created_at == t {
        assert forall|q: int| 0 <= q < b.len() implies !pred(#[trigger] b[q]) by {
            assert(b[q] == o[p + q]);
            lemma_str_lt_asym(x.created_at, o[p].created_at);
            if q > 0 {
                assert(!str_lt(o[p + q].created_at, o[p].created_at));
                lemma_str_lt_total(o[p].created_at, o[p + q].created_at);
                if o[p].created_at != o[p + q].created_at {
                    lemma_str_lt_trans(x.created_at, o[p].created_at, o[p + q].created_at);
                }
                lemma_str_lt_asym(x.created_at, o[p + q].created_at);
            }
        }
        b.lemma_all_neg_filter_empty(pred);
        assert(b.filter(pred) =~= Seq::<SessionInfoView>::empty());
        assert(o.insert(p, x).filter(pred) =~= a.filter(pred).push(x));
        assert(o.filter(pred) =~= a.filter(pred));
    } else {
        assert(o.insert(p, x).filter(pred) =~= a.filter(pred) + b.filter(pred));
    }
}

/// The descriptions ordered by creation time (the listing's order), stably: entries created
/// at the same time keep their order.
pub fn sort_by_created(list: Vec<SessionInfo>) -> (r: Vec<SessionInfo>)
    ensures
        sorted_by_created(infos_view(r@)),
        forall|t: Seq<char>| #[trigger]
            infos_view(r@).filter(created_at_is(t)) == infos_view(list@).filter(created_at_is(t)),
        infos_view(r@).to_multiset() == infos_view(list@).to_multiset(),
{
    let ghost all = infos_view(list@);
    let mut out: Vec<SessionInfo> = Vec::new();
    let mut rest = list;
    let ghost mut k: int = 0;
    assert(all.take(0) =~= Seq::<SessionInfoView>::empty());
    assert(infos_view(out@) =~= Seq::<SessionInfoView>::empty());
    assert(infos_view(rest@) =~= all.skip(0));
    while rest.len() > 0
        invariant
            0 <= k <= all.len(),
            infos_view(rest@) == all.skip(k),
            sorted_by_created(infos_view(out@)),
            forall|t: Seq<char>| #[trigger]
                infos_view(out@).filter(created_at_is(t)) == all.take(k).filter(created_at_is(t)),
            infos_view(out@).to_multiset() == all.take(k).to_multiset(),
        decreases rest.len(),
    {
        let ghost before = rest@;
        let x = rest.remove(0);
        proof {
            assert(infos_view(before).len() == before.len());
            assert(k < all.len());
            assert(infos_view(before)[0] == x@);
            assert(all.skip(k)[0] == all[k]);
            assert(x@ == all[k]);
            assert(infos_view(rest@) =~= infos_view(before).drop_first());
        }
        let ghost o = infos_view(out@);
        let mut p: usize = 0;
        while p < out.len() && !str_less(x.created_at.as_str(), out[p].created_at.as_str())
            invariant
                p <= out@.len(),
                o == infos_view(out@),
                forall|q: int| 0 <= q < p ==> !str_lt(x@.created_at, (#[trigger] o[q]).created_at),
            decreases out.len() - p,
        {
            p = p + 1;
        }
        out.insert(p, x);
        proof {
            let n = infos_view(out@);
            assert(n =~= o.insert(p as int, x@));
            vstd::seq_lib::to_multiset_insert(o, p as int, x@);
            assert(all.take(k + 1) =~= all.take(k).push(all[k]));
            vstd::seq_lib::to_multiset_build(all.take(k), all[k]);
            assert forall|t: Seq<char>| #[trigger] n.filter(created_at_is(t)) == all.take(k + 1).filter(
                created_at_is(t),
            ) by {
                lemma_insert_after_ties(o, p as int, x@, t);
                all.take(k).lemma_filter_push(all[k], created_at_is(t));
            }
            assert forall|i: int, j: int| 0 <= i < j < n.len() implies !str_lt(
                (#[trigger] n[j]).created_at,
                (#[trigger] n[i]).created_at,
            ) by {
                if j < p {
                    assert(n[i] == o[i] && n[j] == o[j]);
                } else if j == p {
                    assert(n[i] == o[i]);
                } else if i > p {
                    assert(n[i] == o[i - 1] && n[j] == o[j - 1]);
                } else if i == p {
                    assert(n[j] == o[j - 1]);
                    assert(str_lt(x@.created_at, o[p as int].created_at));
                    if j - 1 > p {
                        assert(!str_lt(o[j - 1].created_at, o[p as int].created_at));
                        lemma_str_lt_total(o[j - 1].created_at, o[p as int].created_at);
                        if o[j - 1].created_at != o[p as int].created_at {
                            lemma_str_lt_trans(x@.created_at, o[p as int].created_at, o[j - 1].created_at);
                        }
                    }
                    lemma_str_lt_asym(x@.created_at, o[j - 1].created_at);
                } else {
                    assert(n[i] == o[i] && n[j] == o[j - 1]);
                }
            }
            k = k + 1;
            assert(all.skip(k - 1).drop_first() =~= all.skip(k));
            assert(infos_view(rest@) == all.skip(k));
        }
    }
    assert(all.take(k) =~= all);
    out
}

/// How a listing describes each of these sessions with its working directory.
pub open spec fn listing_infos(entries: Seq<(TerminalSession, String)>) -> Seq<SessionInfoView> {
    entries.map_values(|p: (TerminalSession, String)| info_of(p.0@, "local"@, p.1@))
}

/// The session listing: each session (with the working directory its pane reports)
/// described as a `local` session, ordered by creation time, ties in the given order.
pub fn session_listing(entries: Vec<(TerminalSession, String)>) -> (r: Vec<SessionInfo>)
    ensures
        sorted_by_created(infos_view(r@)),
        forall|t: Seq<char>| #[trigger]
            infos_view(r@).filter(created_at_is(t)) == listing_infos(entries@).filter(
                created_at_is(t),
            ),
        infos_view(r@).to_multiset() == listing_infos(entries@).to_multiset(),
{
    let mut infos: Vec<SessionInfo> = Vec::new();
    let mut i: usize = 0;
    while i < entries.len()
        invariant
            i <= entries@.len(),
            infos_view(infos@) == listing_infos(entries@).take(i as int),
        decreases entries.len() - i,
    {
        let info = session_info(&entries[i].0, "local", entries[i].1.clone());
        let ghost before = infos_view(infos@);
        infos.push(info);
        proof {
            reveal_strlit("local");
            assert(infos_view(infos@) =~= before.push(info@));
            assert(listing_infos(entries@).take(i + 1) =~= listing_infos(entries@).take(i as int).push(
                listing_infos(entries@)[i as int],
            ));
        }
        i = i + 1;
    }
    assert(listing_infos(entries@).take(entries@.len() as int) =~= listing_infos(entries@));
    sort_by_created(infos)
}

} // verus!
