//! Chat sessions held in memory: the message window of each conversation,
//! the session list and its titles.
use vstd::prelude::*;

use crate::config::AppConfig;
use crate::model::{
    clone_messages, ChatMessage, ChatSessionRecord, ChatSessionSummary, SessionInfoResponse,
};
use crate::ordering::{is_desc_order, order_desc};
use crate::text::{
    chars_of, concat, is_blank_str, slice_chars, str_eq, string_of, to_string, trim, trim_chars,
    trim_str,
};

verus! {

/// Pairs of messages a session keeps.
pub const MAX_WINDOW_SIZE: usize = 6;

/// Messages a session keeps.
pub const MAX_MESSAGES: usize = 12;

/// Characters of the first question that a session title keeps.
pub const TITLE_LIMIT: usize = 30;

pub const USER_ROLE: &'static str = "user";

pub const ASSISTANT_ROLE: &'static str = "assistant";

pub const NEW_SESSION_TITLE: &'static str = "新对话";

pub const ELLIPSIS: &'static str = "...";

pub const REDIS_KEY_PREFIX: &'static str = "session:";

/// The current time in milliseconds since the Unix epoch.
#[verifier::external_body]
pub(crate) fn now_millis() -> (r: i64) {
    std::time::SystemTime::now().duration_since(std::time::UNIX_EPOCH).map(
        |d| d.as_millis() as i64,
    ).unwrap_or(0)
}

/// A fresh random session id (`Uuid::new_v4`, hyphenated); which digits
/// is not stated: they are random.
#[verifier::external_body]
fn new_session_id() -> (r: String)
    ensures
        crate::evidence::is_random_uuid_text(r@),
{
    uuid::Uuid::new_v4().to_string()
}

pub open spec fn is_message(m: ChatMessage, role: Seq<char>, content: Seq<char>) -> bool {
    m.role@ == role && m.content@ == content
}

fn message(role: &str, content: &str) -> (m: ChatMessage)
    ensures
        is_message(m, role@, content@),
{
    ChatMessage { role: to_string(role), content: to_string(content) }
}

/// How many of `n` messages leave the window: none if they fit, else pairs
/// from the oldest until at most `MAX_MESSAGES` remain.
pub open spec fn evicted_count(n: int) -> int {
    if n <= MAX_MESSAGES {
        0
    } else if (n - MAX_MESSAGES) % 2 == 0 {
        n - MAX_MESSAGES
    } else {
        n - MAX_MESSAGES + 1
    }
}

/// Whatever the length `len` of a history, once a question and its answer
/// are added and the oldest pairs dropped, at most `MAX_MESSAGES` messages
/// remain, the new pair among them, and an even history stays even.
pub proof fn law_history_stays_bounded(len: nat)
    ensures
        len + 2 - evicted_count(len + 2int) <= MAX_MESSAGES,
        len + 2 - evicted_count(len + 2int) >= 2,
        0 <= evicted_count(len + 2int) <= len,
        len % 2 == 0 ==> (len + 2 - evicted_count(len + 2int)) % 2 == 0,
{
}

/// The last `MAX_MESSAGES` messages of `h`.
pub open spec fn recent_window_spec(h: Seq<ChatMessage>) -> Seq<ChatMessage> {
    if h.len() <= MAX_MESSAGES {
        h
    } else {
        h.skip(h.len() - MAX_MESSAGES)
    }
}

/// The last `MAX_MESSAGES` messages of a stored history.
pub fn recent_window(history: Vec<ChatMessage>) -> (r: Vec<ChatMessage>)
    ensures
        r@ == recent_window_spec(history@),
{
    let n = history.len();
    if n <= MAX_MESSAGES {
        return history;
    }
    let mut r: Vec<ChatMessage> = Vec::new();
    let mut i: usize = n - MAX_MESSAGES;
    while i < n
        invariant
            n == history.len(),
            n > MAX_MESSAGES,
            n - MAX_MESSAGES <= i <= n,
            r@ == history@.subrange(n - MAX_MESSAGES, i as int),
        decreases n - i,
    {
        r.push(history[i].clone());
        assert(history@.subrange(n - MAX_MESSAGES, i + 1) =~= history@.subrange(
            n - MAX_MESSAGES,
            i as int,
        ).push(history@[i as int]));
        i = i + 1;
    }
    assert(history@.subrange(n - MAX_MESSAGES, n as int) =~= history@.skip(n - MAX_MESSAGES));
    r
}

/// The index of the first message of `h` at or after `i` written by the user.
pub open spec fn first_user_index(h: Seq<ChatMessage>, i: int) -> Option<int>
    decreases h.len() - i,
{
    if i < 0 || i >= h.len() {
        None
    } else if h[i].role@ == USER_ROLE@ {
        Some(i)
    } else {
        first_user_index(h, i + 1)
    }
}

/// The title of a conversation: its first question, trimmed and cut to
/// `TITLE_LIMIT` characters with an ellipsis; a placeholder where nobody
/// asked anything.
pub open spec fn session_title_spec(h: Seq<ChatMessage>) -> Seq<char> {
    match first_user_index(h, 0) {
        Some(i) => {
            let t = trim(h[i].content@);
            if t.len() > TITLE_LIMIT {
                t.take(TITLE_LIMIT as int) + ELLIPSIS@
            } else {
                t
            }
        },
        None => NEW_SESSION_TITLE@,
    }
}

/// The index of the first question of `h`.
fn first_user(h: &Vec<ChatMessage>) -> (r: Option<usize>)
    ensures
        match r {
            Some(i) => first_user_index(h@, 0) == Some(i as int) && i < h@.len(),
            None => first_user_index(h@, 0) is None,
        },
{
    let mut i: usize = 0;
    while i < h.len()
        invariant
            i <= h.len(),
            first_user_index(h@, 0) == first_user_index(h@, i as int),
        decreases h.len() - i,
    {
        if str_eq(h[i].role.as_str(), USER_ROLE) {
            return Some(i);
        }
        i = i + 1;
    }
    None
}

/// The title of a stored conversation (see `session_title_spec`).
pub fn session_title(session: &ChatSessionRecord) -> (r: String)
    ensures
        r@ == session_title_spec(session.message_history@),
{
    match first_user(&session.message_history) {
        Some(i) => {
            let t = trim_chars(&chars_of(session.message_history[i].content.as_str()));
            if t.len() > TITLE_LIMIT {
                let head = slice_chars(&t, 0, TITLE_LIMIT);
                assert(head@ =~= t@.take(TITLE_LIMIT as int));
                let s = string_of(&head);
                concat(s.as_str(), ELLIPSIS)
            } else {
                string_of(&t)
            }
        },
        None => to_string(NEW_SESSION_TITLE),
    }
}

/// The key a session is cached under.
pub fn redis_key(session_id: &str) -> (r: String)
    ensures
        r@ == REDIS_KEY_PREFIX@ + session_id@,
{
    concat(REDIS_KEY_PREFIX, session_id)
}

/// One conversation: its id, when it began and last changed, and the
/// latest messages.
#[derive(Debug)]
pub struct SessionInfo {
    pub session_id: String,
    pub create_time: i64,
    pub update_time: i64,
    pub message_history: Vec<ChatMessage>,
}

impl Clone for SessionInfo {
    fn clone(&self) -> (r: Self)
        ensures
            r.session_id == self.session_id,
            r.create_time == self.create_time,
            r.update_time == self.update_time,
            r.message_history@ == self.message_history@,
    {
        SessionInfo {
            session_id: self.session_id.clone(),
            create_time: self.create_time,
            update_time: self.update_time,
            message_history: clone_messages(&self.message_history),
        }
    }
}

impl SessionInfo {
    /// A new, empty session created now.
    pub fn new(session_id: String) -> (r: SessionInfo)
        ensures
            r.session_id == session_id,
            r.create_time == r.update_time,
            r.message_history@.len() == 0,
    {
        let now = now_millis();
        SessionInfo { session_id, create_time: now, update_time: now, message_history: Vec::new() }
    }

    /// A session with the given parts, last changed when it was created.
    pub fn with_parts(session_id: String, create_time: i64, message_history: Vec<ChatMessage>) -> (r:
        SessionInfo)
        ensures
            r.session_id == session_id,
            r.create_time == create_time,
            r.update_time == create_time,
            r.message_history@ == message_history@,
    {
        SessionInfo { session_id, create_time, update_time: create_time, message_history }
    }

    /// The session a stored record describes.
    pub fn from_record(record: ChatSessionRecord) -> (r: SessionInfo)
        ensures
            r.session_id == record.session_id,
            r.create_time == record.create_time,
            r.update_time == record.update_time,
            r.message_history@ == record.message_history@,
    {
        let mut session = Self::with_parts(
            record.session_id,
            record.create_time,
            record.message_history,
        );
        session.update_time = record.update_time;
        session
    }

    /// The record the session is stored as.
    pub fn as_record(&self) -> (r: ChatSessionRecord)
        ensures
            r.session_id == self.session_id,
            r.create_time == self.create_time,
            r.update_time == self.update_time,
            r.message_history@ == self.message_history@,
    {
        ChatSessionRecord {
            session_id: self.session_id.clone(),
            create_time: self.create_time,
            update_time: self.update_time,
            message_history: clone_messages(&self.message_history),
        }
    }

    pub fn session_id(&self) -> (r: &str)
        ensures
            r@ == self.session_id@,
    {
        self.session_id.as_str()
    }

    pub fn get_history(&self) -> (r: Vec<ChatMessage>)
        ensures
            r@ == self.message_history@,
    {
        clone_messages(&self.message_history)
    }

    /// Adds a question and its answer, then drops the oldest pairs until at
    /// most `MAX_MESSAGES` messages remain. Gives the dropped messages, which
    /// are to be distilled into long-term memory.
    pub fn add_message(&mut self, user_question: &str, ai_answer: &str) -> (evicted: Vec<
        ChatMessage,
    >)
        ensures
            final(self).session_id == old(self).session_id,
            final(self).create_time == old(self).create_time,
            evicted@.len() == evicted_count(old(self).message_history@.len() + 2int),
            (evicted@ + final(self).message_history@).len() == old(self).message_history@.len()
                + 2,
            (evicted@ + final(self).message_history@).take(old(self).message_history@.len() as int)
                == old(self).message_history@,
            is_message(
                (evicted@ + final(self).message_history@)[old(self).message_history@.len() as int],
                USER_ROLE@,
                user_question@,
            ),
            is_message(
                (evicted@ + final(self).message_history@)[old(self).message_history@.len() + 1int],
                ASSISTANT_ROLE@,
                ai_answer@,
            ),
    {
        let mut full = Vec::new();
        std::mem::swap(&mut full, &mut self.message_history);
        let ghost before = full@;
        full.push(message(USER_ROLE, user_question));
        full.push(message(ASSISTANT_ROLE, ai_answer));
        let n = full.len();
        let k: usize = if n <= MAX_MESSAGES {
            0
        } else if (n - MAX_MESSAGES) % 2 == 0 {
            n - MAX_MESSAGES
        } else {
            n - MAX_MESSAGES + 1
        };
        let mut evicted: Vec<ChatMessage> = Vec::new();
        let mut kept: Vec<ChatMessage> = Vec::new();
        let mut i: usize = 0;
        while i < n
            invariant
                n == full.len(),
                k <= n,
                i <= n,
                i <= k ==> evicted@ == full@.take(i as int) && kept@.len() == 0,
                i > k ==> evicted@ == full@.take(k as int) && kept@ == full@.subrange(
                    k as int,
                    i as int,
                ),
            decreases n - i,
        {
            let m = full[i].clone();
            if i < k {
                evicted.push(m);
                assert(full@.take(i + 1) =~= full@.take(i as int).push(full@[i as int]));
            } else {
                assert(full@.subrange(k as int, i + 1) =~= full@.subrange(k as int, i as int).push(
                    full@[i as int],
                ));
                kept.push(m);
            }
            i = i + 1;
        }
        proof {
            if n <= k {
                assert(kept@ =~= full@.subrange(k as int, n as int));
            }
            assert(evicted@ + kept@ =~= full@);
            assert(full@.take(before.len() as int) =~= before);
        }
        self.message_history = kept;
        self.update_time = now_millis();
        evicted
    }

    pub fn get_message_pair_count(&self) -> (r: usize)
        ensures
            r == self.message_history@.len() / 2,
    {
        self.message_history.len() / 2
    }
}

pub fn session_id(session: &SessionInfo) -> (r: &str)
    ensures
        r@ == session.session_id@,
{
    session.session_id.as_str()
}

pub fn message_history(session: &SessionInfo) -> (r: &[ChatMessage])
    ensures
        r@ == session.message_history@,
{
    session.message_history.as_slice()
}

pub fn create_time(session: &SessionInfo) -> (r: i64)
    ensures
        r == session.create_time,
{
    session.create_time
}

pub fn update_time(session: &SessionInfo) -> (r: i64)
    ensures
        r == session.update_time,
{
    session.update_time
}

/// What clearing a session did.
#[derive(Debug, PartialEq, Eq, Structural)]
pub enum ClearResult {
    Cleared,
    MissingSessionId,
    NotFound,
}

/// The first session of `s` with id `id`.
pub open spec fn find_index(s: Seq<SessionInfo>, id: Seq<char>, i: int) -> Option<int>
    decreases s.len() - i,
{
    if i < 0 || i >= s.len() {
        None
    } else if s[i].session_id@ == id {
        Some(i)
    } else {
        find_index(s, id, i + 1)
    }
}

proof fn lemma_find_index(s: Seq<SessionInfo>, id: Seq<char>, i: int)
    requires
        0 <= i,
    ensures
        match find_index(s, id, i) {
            Some(j) => i <= j < s.len() && s[j].session_id@ == id && forall|m: int|
                i <= m < j ==> s[m].session_id@ != id,
            None => forall|m: int| i <= m < s.len() ==> s[m].session_id@ != id,
        },
    decreases s.len() - i,
{
    if i < s.len() && s[i].session_id@ != id {
        lemma_find_index(s, id, i + 1);
    }
}

fn find_session(sessions: &Vec<SessionInfo>, id: &str) -> (r: Option<usize>)
    ensures
        match r {
            Some(j) => find_index(sessions@, id@, 0) == Some(j as int) && j < sessions@.len()
                && sessions@[j as int].session_id@ == id@,
            None => find_index(sessions@, id@, 0) is None,
        },
        match find_index(sessions@, id@, 0) {
            Some(j) => 0 <= j < sessions@.len() && sessions@[j].session_id@ == id@ && forall|m: int|
                0 <= m < j ==> sessions@[m].session_id@ != id@,
            None => forall|m: int| 0 <= m < sessions@.len() ==> sessions@[m].session_id@ != id@,
        },
{
    proof {
        lemma_find_index(sessions@, id@, 0);
    }
    let mut i: usize = 0;
    while i < sessions.len()
        invariant
            i <= sessions.len(),
            find_index(sessions@, id@, 0) == find_index(sessions@, id@, i as int),
        decreases sessions.len() - i,
    {
        if str_eq(sessions[i].session_id.as_str(), id) {
            proof {
                lemma_find_index(sessions@, id@, 0);
            }
            return Some(i);
        }
        i = i + 1;
    }
    proof {
        lemma_find_index(sessions@, id@, 0);
    }
    None
}

/// The line of the session list that describes `s`.
pub open spec fn summary_of(r: ChatSessionSummary, s: SessionInfo) -> bool {
    &&& r.session_id@ == s.session_id@
    &&& r.title@ == session_title_spec(s.message_history@)
    &&& r.message_pair_count == s.message_history@.len() / 2
    &&& r.create_time == s.create_time
    &&& r.update_time == s.update_time
}

pub open spec fn update_keys(s: Seq<SessionInfo>) -> Seq<i64> {
    s.map_values(|x: SessionInfo| x.update_time)
}

/// The sessions of the service held in memory, with where they are also
/// kept: the cache address, the history directory and how long the cache
/// keeps a session.
pub struct SessionManager {
    pub sessions: Vec<SessionInfo>,
    pub redis_url: Option<String>,
    pub chat_history_path: String,
    pub session_ttl_secs: u64,
}

pub const SEED_SESSION_ID: &'static str = "session-1";

pub const SEED_CREATE_TIME: i64 = 1_718_559_600_000;

pub const SEED_UPDATE_TIME: i64 = 1_718_559_960_000;

pub const SEED_QUESTION: &'static str = "继续上次的话题";

pub const SEED_ANSWER: &'static str = "这是会话的占位回复。";

impl SessionManager {
    /// A manager holding the one sample session.
    pub fn new(config: &AppConfig) -> (r: SessionManager)
        ensures
            r.sessions@.len() == 1,
            r.sessions@[0].session_id@ == SEED_SESSION_ID@,
            r.sessions@[0].create_time == SEED_CREATE_TIME,
            r.sessions@[0].update_time == SEED_UPDATE_TIME,
            r.sessions@[0].message_history@.len() == 2,
            is_message(r.sessions@[0].message_history@[0], USER_ROLE@, SEED_QUESTION@),
            is_message(r.sessions@[0].message_history@[1], ASSISTANT_ROLE@, SEED_ANSWER@),
            r.redis_url == config.redis_url,
            r.chat_history_path == config.chat_history_path,
            r.session_ttl_secs == config.session_ttl_secs,
    {
        let mut history: Vec<ChatMessage> = Vec::new();
        history.push(message(USER_ROLE, SEED_QUESTION));
        history.push(message(ASSISTANT_ROLE, SEED_ANSWER));
        let seed = ChatSessionRecord {
            session_id: to_string(SEED_SESSION_ID),
            create_time: SEED_CREATE_TIME,
            update_time: SEED_UPDATE_TIME,
            message_history: history,
        };
        let mut sessions: Vec<SessionInfo> = Vec::new();
        sessions.push(SessionInfo::from_record(seed));
        SessionManager {
            sessions,
            redis_url: config.redis_url.clone(),
            chat_history_path: config.chat_history_path.clone(),
            session_ttl_secs: config.session_ttl_secs,
        }
    }

    /// The id a request's session goes by: the given id trimmed, or a fresh
    /// one where none or a blank one was given.
    pub fn resolve_session_id(session_id: Option<&str>) -> (r: String)
        ensures
            session_id is Some && trim(session_id.unwrap()@).len() > 0 ==> r@ == trim(
                session_id.unwrap()@,
            ),
            !(session_id is Some && trim(session_id.unwrap()@).len() > 0)
                ==> crate::evidence::is_random_uuid_text(r@),
    {
        match session_id {
            Some(id) => {
                let t = trim_str(id);
                if t.as_str().is_empty() {
                    new_session_id()
                } else {
                    t
                }
            },
            None => new_session_id(),
        }
    }

    /// The session held in memory with id `session_id`, unless the id is blank.
    pub fn get_session(&self, session_id: &str) -> (r: Option<SessionInfo>)
        ensures
            match r {
                Some(s) => trim(session_id@).len() > 0 && match find_index(
                    self.sessions@,
                    session_id@,
                    0,
                ) {
                    Some(j) => s.session_id == self.sessions@[j].session_id && s.create_time
                        == self.sessions@[j].create_time && s.update_time
                        == self.sessions@[j].update_time && s.message_history@
                        == self.sessions@[j].message_history@,
                    None => false,
                },
                None => trim(session_id@).len() == 0 || find_index(self.sessions@, session_id@, 0)
                    is None,
            },
    {
        if is_blank_str(session_id) {
            return None;
        }
        match find_session(&self.sessions, session_id) {
            Some(j) => Some(self.sessions[j].clone()),
            None => None,
        }
    }

    /// Takes in the session `session_id` that memory did not hold: the one
    /// read back from Redis, else the one kept in the history store (its
    /// last messages only), else a new one. It is kept in memory and
    /// returned, with whether Redis must now be given it (all but the
    /// first source).
    pub fn admit_session(
        &mut self,
        session_id: &str,
        from_redis: Option<SessionInfo>,
        from_history: Option<ChatSessionRecord>,
    ) -> (r: (SessionInfo, bool))
        ensures
            r.1 == (from_redis is None),
            match from_redis {
                Some(s) => r.0 == s,
                None => match from_history {
                    Some(rec) => r.0.session_id == rec.session_id && r.0.create_time == rec.create_time
                        && r.0.update_time == rec.update_time && r.0.message_history@
                        == recent_window_spec(rec.message_history@),
                    None => r.0.session_id@ == session_id@ && r.0.create_time == r.0.update_time
                        && r.0.message_history@.len() == 0,
                },
            },
            find_index(final(self).sessions@, r.0.session_id@, 0) matches Some(j)
                && final(self).sessions@[j].session_id == r.0.session_id
                && final(self).sessions@[j].create_time == r.0.create_time
                && final(self).sessions@[j].update_time == r.0.update_time
                && final(self).sessions@[j].message_history@ == r.0.message_history@,
            final(self).redis_url == old(self).redis_url,
            final(self).chat_history_path == old(self).chat_history_path,
            final(self).session_ttl_secs == old(self).session_ttl_secs,
    {
        let (session, fresh) = match from_redis {
            Some(s) => (s, false),
            None => match from_history {
                Some(rec) => {
                    let mut rec = rec;
                    let mut history: Vec<ChatMessage> = Vec::new();
                    std::mem::swap(&mut history, &mut rec.message_history);
                    rec.message_history = recent_window(history);
                    (SessionInfo::from_record(rec), true)
                },
                None => (SessionInfo::new(to_string(session_id)), true),
            },
        };
        self.save_session(&session);
        (session, fresh)
    }

    /// Keeps `session` in memory, in place of the one with the same id.
    pub fn save_session(&mut self, session: &SessionInfo)
        ensures
            match find_index(old(self).sessions@, session.session_id@, 0) {
                Some(j) => final(self).sessions@.len() == old(self).sessions@.len() && forall|m: int|
                    0 <= m < old(self).sessions@.len() && m != j ==> final(self).sessions@[m]
                        == old(self).sessions@[m],
                None => final(self).sessions@.len() == old(self).sessions@.len() + 1
                    && final(self).sessions@.take(old(self).sessions@.len() as int) == old(
                    self,
                ).sessions@,
            },
            find_index(final(self).sessions@, session.session_id@, 0) matches Some(j)
                && final(self).sessions@[j].session_id == session.session_id
                && final(self).sessions@[j].create_time == session.create_time
                && final(self).sessions@[j].update_time == session.update_time
                && final(self).sessions@[j].message_history@ == session.message_history@,
            final(self).redis_url == old(self).redis_url,
            final(self).chat_history_path == old(self).chat_history_path,
            final(self).session_ttl_secs == old(self).session_ttl_secs,
    {
        proof {
            lemma_find_index(self.sessions@, session.session_id@, 0);
        }
        match find_session(&self.sessions, session.session_id.as_str()) {
            Some(j) => {
                let ghost pre = self.sessions@;
                let c = session.clone();
                self.sessions.set(j, c);
                assert(self.sessions@[j as int] == c);
                proof {
                    assert forall|m: int| 0 <= m < j implies self.sessions@[m].session_id@
                        != session.session_id@ by {
                        assert(self.sessions@[m] == pre[m]);
                    }
                    lemma_find_index(self.sessions@, session.session_id@, 0);
                }
            },
            None => {
                let ghost pre = self.sessions@;
                let c = session.clone();
                self.sessions.push(c);
                assert(self.sessions@[pre.len() as int] == c);
                proof {
                    assert forall|m: int| 0 <= m < pre.len() implies self.sessions@[m].session_id@
                        != session.session_id@ by {
                        assert(self.sessions@[m] == pre[m]);
                    }
                    lemma_find_index(self.sessions@, session.session_id@, 0);
                    assert(self.sessions@.take(pre.len() as int) =~= pre);
                }
            },
        }
    }

    /// Empties the history of a session.
    pub fn clear(&mut self, session_id: &str) -> (r: ClearResult)
        ensures
            trim(session_id@).len() == 0 ==> r == ClearResult::MissingSessionId && *final(self)
                == *old(self),
            trim(session_id@).len() > 0 && find_index(old(self).sessions@, trim(session_id@), 0)
                is None ==> r == ClearResult::NotFound && *final(self) == *old(self),
            trim(session_id@).len() > 0 ==> (find_index(old(self).sessions@, trim(session_id@), 0)
                matches Some(j) ==> r == ClearResult::Cleared && final(self).sessions@.len()
                == old(self).sessions@.len() && final(self).sessions@[j].message_history@.len() == 0
                && final(self).sessions@[j].session_id == old(self).sessions@[j].session_id
                && final(self).sessions@[j].create_time == old(self).sessions@[j].create_time
                && forall|m: int|
                0 <= m < old(self).sessions@.len() && m != j ==> final(self).sessions@[m] == old(
                    self,
                ).sessions@[m]),
            final(self).redis_url == old(self).redis_url,
            final(self).chat_history_path == old(self).chat_history_path,
            final(self).session_ttl_secs == old(self).session_ttl_secs,
    {
        let trimmed = trim_str(session_id);
        if trimmed.as_str().is_empty() {
            return ClearResult::MissingSessionId;
        }
        match find_session(&self.sessions, trimmed.as_str()) {
            None => ClearResult::NotFound,
            Some(j) => {
                let now = now_millis();
                let old_session = self.sessions[j].clone();
                let cleared = SessionInfo {
                    session_id: old_session.session_id,
                    create_time: old_session.create_time,
                    update_time: now,
                    message_history: Vec::new(),
                };
                self.sessions.set(j, cleared);
                ClearResult::Cleared
            },
        }
    }

    /// What the session endpoint tells about a session held in memory.
    pub fn session_info(&self, session_id: &str) -> (r: Option<SessionInfoResponse>)
        ensures
            match r {
                Some(info) => trim(session_id@).len() > 0 && match find_index(
                    self.sessions@,
                    session_id@,
                    0,
                ) {
                    Some(j) => info.session_id@ == self.sessions@[j].session_id@
                        && info.message_pair_count == self.sessions@[j].message_history@.len() / 2
                        && info.create_time == self.sessions@[j].create_time,
                    None => false,
                },
                None => trim(session_id@).len() == 0 || find_index(self.sessions@, session_id@, 0)
                    is None,
            },
    {
        match self.get_session(session_id) {
            Some(session) => Some(
                SessionInfoResponse {
                    session_id: session.session_id.clone(),
                    message_pair_count: session.message_history.len() / 2,
                    create_time: session.create_time,
                },
            ),
            None => None,
        }
    }

    /// Every session held in memory, the most recently changed first.
    pub fn list_sessions(&self) -> (r: Vec<ChatSessionSummary>)
        ensures
            exists|order: Seq<usize>|
                is_desc_order(update_keys(self.sessions@), order) && r@.len() == order.len()
                    && forall|i: int|
                    0 <= i < order.len() ==> summary_of(
                        #[trigger] r@[i],
                        self.sessions@[order[i] as int],
                    ),
    {
        let mut keys: Vec<i64> = Vec::new();
        let mut i: usize = 0;
        while i < self.sessions.len()
            invariant
                i <= self.sessions.len(),
                keys@ == update_keys(self.sessions@).take(i as int),
            decreases self.sessions.len() - i,
        {
            keys.push(self.sessions[i].update_time);
            assert(keys@ =~= update_keys(self.sessions@).take(i + 1));
            i = i + 1;
        }
        assert(keys@ =~= update_keys(self.sessions@));
        let order = order_desc(&keys);
        let mut out: Vec<ChatSessionSummary> = Vec::new();
        let mut k: usize = 0;
        while k < order.len()
            invariant
                k <= order.len(),
                is_desc_order(update_keys(self.sessions@), order@),
                out@.len() == k,
                forall|m: int|
                    0 <= m < k ==> summary_of(#[trigger] out@[m], self.sessions@[order@[m] as int]),
            decreases order.len() - k,
        {
            let s = &self.sessions[order[k]];
            let record = s.as_record();
            out.push(
                ChatSessionSummary {
                    session_id: s.session_id.clone(),
                    title: session_title(&record),
                    message_pair_count: s.message_history.len() / 2,
                    create_time: s.create_time,
                    update_time: s.update_time,
                },
            );
            k = k + 1;
        }
        out
    }

    /// The stored form of a session held in memory.
    pub fn session_messages(&self, session_id: &str) -> (r: Option<ChatSessionRecord>)
        ensures
            match r {
                Some(rec) => trim(session_id@).len() > 0 && match find_index(
                    self.sessions@,
                    session_id@,
                    0,
                ) {
                    Some(j) => rec.session_id == self.sessions@[j].session_id
                        && rec.message_history@ == self.sessions@[j].message_history@
                        && rec.create_time == self.sessions@[j].create_time && rec.update_time
                        == self.sessions@[j].update_time,
                    None => false,
                },
                None => trim(session_id@).len() == 0 || find_index(self.sessions@, session_id@, 0)
                    is None,
            },
    {
        match self.get_session(session_id) {
            Some(session) => Some(session.as_record()),
            None => None,
        }
    }

    /// Forgets a session; tells whether one was held.
    pub fn delete_session(&mut self, session_id: &str) -> (r: bool)
        ensures
            trim(session_id@).len() == 0 ==> !r && *final(self) == *old(self),
            trim(session_id@).len() > 0 ==> r == (find_index(old(self).sessions@, session_id@, 0)
                is Some),
            trim(session_id@).len() > 0 ==> (find_index(old(self).sessions@, session_id@, 0)
                matches Some(j) ==> final(self).sessions@ == old(self).sessions@.remove(j)),
            trim(session_id@).len() > 0 && find_index(old(self).sessions@, session_id@, 0) is None
                ==> *final(self) == *old(self),
            final(self).redis_url == old(self).redis_url,
            final(self).chat_history_path == old(self).chat_history_path,
            final(self).session_ttl_secs == old(self).session_ttl_secs,
    {
        if is_blank_str(session_id) {
            return false;
        }
        match find_session(&self.sessions, session_id) {
            Some(j) => {
                self.sessions.remove(j);
                true
            },
            None => false,
        }
    }
}

// ---------------------------------------------------------------------------
// Laws of the session title
// ---------------------------------------------------------------------------

/// Where the search for a question starting at `k` stops: at a question
/// with none before it, or nowhere when none is left.
proof fn lemma_first_user_props(h: Seq<ChatMessage>, k: int)
    requires
        0 <= k,
    ensures
        match first_user_index(h, k) {
            Some(i) => k <= i < h.len() && h[i].role@ == USER_ROLE@ && forall|j: int|
                k <= j < i ==> (#[trigger] h[j]).role@ != USER_ROLE@,
            None => forall|j: int| k <= j < h.len() ==> (#[trigger] h[j]).role@ != USER_ROLE@,
        },
    decreases h.len() - k,
{
    if k < h.len() && h[k].role@ != USER_ROLE@ {
        lemma_first_user_props(h, k + 1);
    }
}

/// The first question of `h` is its question with none before it.
proof fn lemma_first_user_at(h: Seq<ChatMessage>, i: int)
    requires
        0 <= i < h.len(),
        h[i].role@ == USER_ROLE@,
        forall|j: int| 0 <= j < i ==> (#[trigger] h[j]).role@ != USER_ROLE@,
    ensures
        first_user_index(h, 0) == Some(i),
{
    lemma_first_user_props(h, 0);
    match first_user_index(h, 0) {
        Some(k) => {
            if k < i {
                assert(h[k].role@ != USER_ROLE@);
            }
            if k > i {
                assert(h[i].role@ != USER_ROLE@);
            }
        },
        None => {
            assert(h[i].role@ != USER_ROLE@);
        },
    }
}

/// Law: a conversation is titled by its first question (the question at
/// the lowest index), trimmed; one longer than `TITLE_LIMIT` characters is
/// cut there and ends with `...`.
pub proof fn law_title_is_first_question(h: Seq<ChatMessage>, i: int)
    requires
        0 <= i < h.len(),
        h[i].role@ == USER_ROLE@,
        forall|j: int| 0 <= j < i ==> (#[trigger] h[j]).role@ != USER_ROLE@,
    ensures
        trim(h[i].content@).len() <= TITLE_LIMIT ==> session_title_spec(h) == trim(h[i].content@),
        trim(h[i].content@).len() > TITLE_LIMIT ==> session_title_spec(h) == trim(
            h[i].content@,
        ).take(TITLE_LIMIT as int) + ELLIPSIS@,
{
    lemma_first_user_at(h, i);
}

/// Law: a conversation in which nobody asked anything is titled `新对话`.
pub proof fn law_title_without_question(h: Seq<ChatMessage>)
    requires
        forall|j: int| 0 <= j < h.len() ==> (#[trigger] h[j]).role@ != USER_ROLE@,
    ensures
        session_title_spec(h) == NEW_SESSION_TITLE@,
{
    lemma_first_user_props(h, 0);
    if first_user_index(h, 0) is Some {
        let i = first_user_index(h, 0)->0;
        assert(h[i].role@ == USER_ROLE@);
    }
}

/// Law: once a question has been asked, later messages leave the title as
/// it is.
pub proof fn law_title_stays(h: Seq<ChatMessage>, more: Seq<ChatMessage>)
    requires
        exists|i: int| 0 <= i < h.len() && (#[trigger] h[i]).role@ == USER_ROLE@,
    ensures
        session_title_spec(h + more) == session_title_spec(h),
{
    lemma_first_user_props(h, 0);
    match first_user_index(h, 0) {
        Some(i) => {
            let g = h + more;
            assert(g[i] == h[i]);
            assert forall|j: int| 0 <= j < i implies (#[trigger] g[j]).role@ != USER_ROLE@ by {
                assert(g[j] == h[j]);
            }
            lemma_first_user_at(g, i);
        },
        None => {
            let i = choose|i: int| 0 <= i < h.len() && (#[trigger] h[i]).role@ == USER_ROLE@;
            assert(h[i].role@ != USER_ROLE@);
        },
    }
}


} // verus!
