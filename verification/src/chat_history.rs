//! The stored form of conversations: how a record is named on disk, how it
//! grows by a question and its answer, and how the stored list is titled
//! and ordered.
use vstd::prelude::*;

use crate::model::{clone_messages, ChatMessage, ChatSessionRecord, ChatSessionSummary};
use crate::ordering::{is_desc_order, order_desc};
use crate::session::{is_message, ASSISTANT_ROLE, ELLIPSIS, NEW_SESSION_TITLE, TITLE_LIMIT, USER_ROLE};
use crate::text::{
    chars_of, concat, is_blank, is_blank_str, slice_chars, str_eq, string_of, to_string, trim,
    trim_chars,
};

verus! {

pub const DEFAULT_HISTORY_PATH: &'static str = "./data/chat-history";

pub const RECORD_EXTENSION: &'static str = ".json";

/// The digit for `n` (0 to 63) in the URL-safe base64 alphabet:
/// `A`-`Z`, `a`-`z`, `0`-`9`, `-`, `_`.
pub open spec fn base64_url_digit(n: int) -> char {
    if n < 26 {
        (65 + n) as char
    } else if n < 52 {
        (97 + n - 26) as char
    } else if n < 62 {
        (48 + n - 52) as char
    } else if n == 62 {
        '-'
    } else {
        '_'
    }
}

/// `b` in URL-safe base64 without padding (RFC 4648): each three bytes
/// give four digits of six bits; two left over give three digits, one
/// gives two, the last bits filled with zeros.
pub open spec fn base64_url_bytes(b: Seq<u8>) -> Seq<char>
    decreases b.len(),
{
    if b.len() == 0 {
        seq![]
    } else if b.len() == 1 {
        let n = b[0] as int;
        seq![base64_url_digit(n / 4), base64_url_digit((n % 4) * 16)]
    } else if b.len() == 2 {
        let n = b[0] as int * 256 + b[1] as int;
        seq![base64_url_digit(n / 1024), base64_url_digit((n / 16) % 64), base64_url_digit((n % 16) * 4)]
    } else {
        let n = b[0] as int * 65536 + b[1] as int * 256 + b[2] as int;
        seq![
            base64_url_digit(n / 262144),
            base64_url_digit((n / 4096) % 64),
            base64_url_digit((n / 64) % 64),
            base64_url_digit(n % 64),
        ] + base64_url_bytes(b.skip(3))
    }
}

/// `s` as its UTF-8 bytes in URL-safe base64 without padding.
pub open spec fn base64_url(s: Seq<char>) -> Seq<char> {
    base64_url_bytes(vstd::utf8::encode_utf8(s))
}

/// Encodes the UTF-8 bytes of `session_id` with `URL_SAFE_NO_PAD`
/// (`base64::Engine::encode`), the URL-safe alphabet of RFC 4648 without
/// padding.
#[verifier::external_body]
fn encode_session_id(session_id: &str) -> (r: String)
    ensures
        r@ == base64_url(session_id@),
{
    base64::Engine::encode(&base64::engine::general_purpose::URL_SAFE_NO_PAD, session_id.as_bytes())
}

/// The name of the file a session is stored in.
pub fn session_file_name(session_id: &str) -> (r: String)
    ensures
        r@ == base64_url(session_id@) + RECORD_EXTENSION@,
{
    let encoded = encode_session_id(session_id);
    concat(encoded.as_str(), RECORD_EXTENSION)
}

/// The directory histories are kept in: the given one, or the default
/// where none is given.
pub fn history_root(path: &str) -> (r: String)
    ensures
        path@.len() == 0 ==> r@ == DEFAULT_HISTORY_PATH@,
        path@.len() > 0 ==> r@ == path@,
{
    if path.is_empty() {
        to_string(DEFAULT_HISTORY_PATH)
    } else {
        to_string(path)
    }
}

/// An empty record; a missing creation time is taken from `update_time`.
pub fn new_record(session_id: &str, create_time: i64, update_time: i64) -> (r: ChatSessionRecord)
    ensures
        r.session_id@ == session_id@,
        r.create_time == (if create_time > 0 {
            create_time
        } else {
            update_time
        }),
        r.update_time == update_time,
        r.message_history@.len() == 0,
{
    ChatSessionRecord {
        session_id: to_string(session_id),
        create_time: if create_time > 0 {
            create_time
        } else {
            update_time
        },
        update_time,
        message_history: Vec::new(),
    }
}

/// Adds a question and its answer to a record changed at `now`.
pub fn append_pair(record: &mut ChatSessionRecord, user_question: &str, ai_answer: &str, now: i64)
    ensures
        final(record).session_id == old(record).session_id,
        final(record).create_time == old(record).create_time,
        final(record).update_time == now,
        final(record).message_history@.len() == old(record).message_history@.len() + 2,
        final(record).message_history@.take(old(record).message_history@.len() as int)
            == old(record).message_history@,
        is_message(
            final(record).message_history@[old(record).message_history@.len() as int],
            USER_ROLE@,
            user_question@,
        ),
        is_message(
            final(record).message_history@[old(record).message_history@.len() + 1int],
            ASSISTANT_ROLE@,
            ai_answer@,
        ),
{
    let ghost before = record.message_history@;
    record.message_history.push(ChatMessage { role: to_string(USER_ROLE), content: to_string(user_question) });
    record.message_history.push(ChatMessage { role: to_string(ASSISTANT_ROLE), content: to_string(ai_answer) });
    record.update_time = now;
    assert(record.message_history@.take(before.len() as int) =~= before);
}

/// A record made ready to be written at `now`: none where its session id
/// is blank; a missing creation or update time is set to `now`.
pub fn prepare_for_save(record: ChatSessionRecord, now: i64) -> (r: Option<ChatSessionRecord>)
    ensures
        is_blank(record.session_id@) ==> r is None,
        !is_blank(record.session_id@) ==> match r {
            Some(s) => s.session_id == record.session_id && s.message_history@
                == record.message_history@ && s.create_time == (if record.create_time > 0 {
                record.create_time
            } else {
                now
            }) && s.update_time == (if record.update_time > 0 {
                record.update_time
            } else {
                now
            }),
            None => false,
        },
{
    if is_blank_str(record.session_id.as_str()) {
        return None;
    }
    let mut record = record;
    if record.create_time <= 0 {
        record.create_time = now;
    }
    if record.update_time <= 0 {
        record.update_time = now;
    }
    Some(record)
}

/// The first question of `h` at or after `i` that is not blank.
pub open spec fn first_question_index(h: Seq<ChatMessage>, i: int) -> Option<int>
    decreases h.len() - i,
{
    if i < 0 || i >= h.len() {
        None
    } else if h[i].role@ == USER_ROLE@ && !is_blank(h[i].content@) {
        Some(i)
    } else {
        first_question_index(h, i + 1)
    }
}

/// The title of a stored record: its first question that is not blank,
/// trimmed and cut to `TITLE_LIMIT` characters with an ellipsis; a
/// placeholder where there is none.
pub open spec fn record_title(h: Seq<ChatMessage>) -> Seq<char> {
    match first_question_index(h, 0) {
        Some(i) => {
            let t = trim(h[i].content@);
            if t.len() > TITLE_LIMIT {
                t.take(TITLE_LIMIT as int) + ELLIPSIS@
            } else {
                t
            }
        },
        None => NEW_SESSION_TITLE@,
    }
}

fn first_question(h: &Vec<ChatMessage>) -> (r: Option<usize>)
    ensures
        match r {
            Some(i) => first_question_index(h@, 0) == Some(i as int) && i < h@.len(),
            None => first_question_index(h@, 0) is None,
        },
{
    let mut i: usize = 0;
    while i < h.len()
        invariant
            i <= h.len(),
            first_question_index(h@, 0) == first_question_index(h@, i as int),
        decreases h.len() - i,
    {
        if str_eq(h[i].role.as_str(), USER_ROLE) && !is_blank_str(h[i].content.as_str()) {
            return Some(i);
        }
        i = i + 1;
    }
    None
}

/// The title of a stored record (see `record_title`).
pub fn title_for(record: &ChatSessionRecord) -> (r: String)
    ensures
        r@ == record_title(record.message_history@),
{
    match first_question(&record.message_history) {
        Some(i) => {
            let t = trim_chars(&chars_of(record.message_history[i].content.as_str()));
            if t.len() > TITLE_LIMIT {
                let head = slice_chars(&t, 0, TITLE_LIMIT);
                assert(head@ =~= t@.take(TITLE_LIMIT as int));
                let s = string_of(&head);
                concat(s.as_str(), ELLIPSIS)
            } else {
                string_of(&t)
            }
        },
        None => to_string(NEW_SESSION_TITLE),
    }
}

/// The line of the stored list that describes `rec`.
pub open spec fn record_summary(r: ChatSessionSummary, rec: ChatSessionRecord) -> bool {
    &&& r.session_id@ == rec.session_id@
    &&& r.title@ == record_title(rec.message_history@)
    &&& r.message_pair_count == rec.message_history@.len() / 2
    &&& r.create_time == rec.create_time
    &&& r.update_time == rec.update_time
}

pub open spec fn record_keys(s: Seq<ChatSessionRecord>) -> Seq<i64> {
    s.map_values(|x: ChatSessionRecord| x.update_time)
}

/// The stored list: one line per record, the most recently changed first.
pub fn summarize_records(records: &Vec<ChatSessionRecord>) -> (r: Vec<ChatSessionSummary>)
    ensures
        exists|order: Seq<usize>|
            is_desc_order(record_keys(records@), order) && r@.len() == order.len() && forall|i: int|
                0 <= i < order.len() ==> record_summary(#[trigger] r@[i], records@[order[i] as int]),
{
    let mut keys: Vec<i64> = Vec::new();
    let mut i: usize = 0;
    while i < records.len()
        invariant
            i <= records.len(),
            keys@ == record_keys(records@).take(i as int),
        decreases records.len() - i,
    {
        keys.push(records[i].update_time);
        assert(keys@ =~= record_keys(records@).take(i + 1));
        i = i + 1;
    }
    assert(keys@ =~= record_keys(records@));
    let order = order_desc(&keys);
    let mut out: Vec<ChatSessionSummary> = Vec::new();
    let mut k: usize = 0;
    while k < order.len()
        invariant
            k <= order.len(),
            is_desc_order(record_keys(records@), order@),
            out@.len() == k,
            forall|m: int|
                0 <= m < k ==> record_summary(#[trigger] out@[m], records@[order@[m] as int]),
        decreases order.len() - k,
    {
        let rec = &records[order[k]];
        out.push(
            ChatSessionSummary {
                session_id: rec.session_id.clone(),
                title: title_for(rec),
                message_pair_count: rec.message_history.len() / 2,
                create_time: rec.create_time,
                update_time: rec.update_time,
            },
        );
        k = k + 1;
    }
    out
}

/// `root` joined with the file name `name`, as a path.
pub open spec fn join_path(root: Seq<char>, name: Seq<char>) -> Seq<char> {
    if root.len() == 0 {
        name
    } else if root.last() == '/' {
        root + name
    } else {
        root + seq!['/'] + name
    }
}

/// Where conversations are stored: one file per session under a directory.
pub struct ChatHistoryStore {
    pub root_path: String,
}

impl ChatHistoryStore {
    /// A store under `path`, or under the default directory where `path`
    /// is empty.
    pub fn new(path: &str) -> (r: Self)
        ensures
            r.root_path@ == (if path@.len() == 0 {
                DEFAULT_HISTORY_PATH@
            } else {
                path@
            }),
    {
        ChatHistoryStore { root_path: history_root(path) }
    }

    /// The file the session `session_id` is stored in.
    pub fn path_for_session(&self, session_id: &str) -> (r: String)
        ensures
            r@ == join_path(self.root_path@, base64_url(session_id@) + RECORD_EXTENSION@),
    {
        let name = session_file_name(session_id);
        let root = self.root_path.as_str();
        let n = root.unicode_len();
        if n == 0 {
            name
        } else if root.get_char(n - 1) == '/' {
            concat(root, name.as_str())
        } else {
            let mut v = chars_of(root);
            v.push('/');
            crate::text::append_str(&mut v, name.as_str());
            string_of(&v)
        }
    }

    /// The file a session is read from or removed from: none where the
    /// session id is blank, for such an id names no stored session.
    pub fn record_path(&self, session_id: &str) -> (r: Option<String>)
        ensures
            match r {
                Some(p) => !is_blank(session_id@) && p@ == join_path(
                    self.root_path@,
                    base64_url(session_id@) + RECORD_EXTENSION@,
                ),
                None => is_blank(session_id@),
            },
    {
        if is_blank_str(session_id) {
            None
        } else {
            Some(self.path_for_session(session_id))
        }
    }

    /// The record to store once `user_question` and its answer were
    /// exchanged in the session `session_id` at `now`: the stored record
    /// `loaded` (a new one created at `create_time`, or at `now` where that
    /// is not positive, where nothing is stored or the id is blank) with
    /// the pair added last and `now` as its update time. None where the
    /// session id of that record is blank: nothing is stored then.
    pub fn append_message_pair(
        &self,
        loaded: Option<ChatSessionRecord>,
        session_id: &str,
        create_time: i64,
        user_question: &str,
        ai_answer: &str,
        now: i64,
    ) -> (r: Option<ChatSessionRecord>)
        ensures
            ({
                let from_store = !is_blank(session_id@) && loaded is Some;
                let base_id = if from_store {
                    loaded->0.session_id@
                } else {
                    session_id@
                };
                let base_create = if from_store {
                    loaded->0.create_time
                } else if create_time > 0 {
                    create_time
                } else {
                    now
                };
                let base_history = if from_store {
                    loaded->0.message_history@
                } else {
                    Seq::empty()
                };
                match r {
                    Some(rec) => {
                        &&& !is_blank(base_id)
                        &&& rec.session_id@ == base_id
                        &&& rec.create_time == (if base_create > 0 {
                            base_create
                        } else {
                            now
                        })
                        &&& rec.update_time == now
                        &&& rec.message_history@.len() == base_history.len() + 2
                        &&& rec.message_history@.take(base_history.len() as int) == base_history
                        &&& is_message(
                            rec.message_history@[base_history.len() as int],
                            USER_ROLE@,
                            user_question@,
                        )
                        &&& is_message(
                            rec.message_history@[base_history.len() + 1int],
                            ASSISTANT_ROLE@,
                            ai_answer@,
                        )
                    },
                    None => is_blank(base_id),
                }
            }),
    {
        let mut record = if !is_blank_str(session_id) && loaded.is_some() {
            match loaded {
                Some(l) => l,
                None => new_record(session_id, create_time, now),
            }
        } else {
            new_record(session_id, create_time, now)
        };
        append_pair(&mut record, user_question, ai_answer, now);
        prepare_for_save(record, now)
    }
}

} // verus!
