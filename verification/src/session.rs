//! Conversation sessions: message history per `channel:chat_id` key, with history
//! windows aligned to legal tool-call boundaries.

use crate::clock::{parts_valid, shown_time, utc_now_formatted, TimeParts};
use crate::strmap::StrMap;
use crate::text::{chars_of, push_char, str_eq, string_of, to_string};
use vstd::prelude::*;

verus! {

/// A tool function call.
pub struct ToolFunction {
    pub name: String,
    pub arguments: String,
}

/// A tool call made by the assistant.
pub struct ToolCall {
    pub id: String,
    pub call_type: String,
    pub function: ToolFunction,
}

/// One message of a session.
pub struct Message {
    pub role: String,
    pub content: String,
    pub tool_calls: Option<Vec<ToolCall>>,
    pub tool_call_id: Option<String>,
    pub name: Option<String>,
    pub timestamp: Option<String>,
}

/// The mathematical form of a tool call.
pub struct CallView {
    pub id: Seq<char>,
    pub call_type: Seq<char>,
    pub name: Seq<char>,
    pub arguments: Seq<char>,
}

/// The mathematical form of a message.
pub struct MessageView {
    pub role: Seq<char>,
    pub content: Seq<char>,
    pub tool_calls: Option<Seq<CallView>>,
    pub tool_call_id: Option<Seq<char>>,
    pub name: Option<Seq<char>>,
    pub timestamp: Option<Seq<char>>,
}

pub open spec fn opt_str(o: Option<String>) -> Option<Seq<char>> {
    match o {
        Some(s) => Some(s@),
        None => None,
    }
}

impl ToolCall {
    pub open spec fn view(&self) -> CallView {
        CallView { id: self.id@, call_type: self.call_type@, name: self.function.name@, arguments: self.function.arguments@ }
    }

    pub fn copy(&self) -> (r: ToolCall)
        ensures
            r.view() == self.view(),
    {
        ToolCall {
            id: self.id.clone(),
            call_type: self.call_type.clone(),
            function: ToolFunction { name: self.function.name.clone(), arguments: self.function.arguments.clone() },
        }
    }
}

pub open spec fn calls_view(v: Seq<ToolCall>) -> Seq<CallView> {
    v.map_values(|c: ToolCall| c.view())
}

fn copy_calls(v: &Vec<ToolCall>) -> (r: Vec<ToolCall>)
    ensures
        calls_view(r@) == calls_view(v@),
{
    let mut r: Vec<ToolCall> = Vec::new();
    let mut i: usize = 0;
    while i < v.len()
        invariant
            i <= v@.len(),
            calls_view(r@) == calls_view(v@).take(i as int),
        decreases v@.len() - i,
    {
        let ghost before = r@;
        let c = v[i].copy();
        r.push(c);
        assert(calls_view(r@) =~= calls_view(before).push(v@[i as int].view()));
        assert(calls_view(r@) =~= calls_view(v@).take(i + 1));
        i = i + 1;
    }
    assert(calls_view(v@).take(v@.len() as int) == calls_view(v@));
    r
}

fn copy_opt_string(o: &Option<String>) -> (r: Option<String>)
    ensures
        opt_str(r) == opt_str(*o),
{
    match o {
        Some(s) => Some(s.clone()),
        None => None,
    }
}

impl Message {
    pub open spec fn view(&self) -> MessageView {
        MessageView {
            role: self.role@,
            content: self.content@,
            tool_calls: match self.tool_calls {
                Some(v) => Some(calls_view(v@)),
                None => None,
            },
            tool_call_id: opt_str(self.tool_call_id),
            name: opt_str(self.name),
            timestamp: opt_str(self.timestamp),
        }
    }

    /// A copy of the message.
    pub fn copy(&self) -> (r: Message)
        ensures
            r.view() == self.view(),
    {
        Message {
            role: self.role.clone(),
            content: self.content.clone(),
            tool_calls: match &self.tool_calls {
                Some(v) => Some(copy_calls(v)),
                None => None,
            },
            tool_call_id: copy_opt_string(&self.tool_call_id),
            name: copy_opt_string(&self.name),
            timestamp: copy_opt_string(&self.timestamp),
        }
    }
}

pub open spec fn msgs_view(v: Seq<Message>) -> Seq<MessageView> {
    v.map_values(|m: Message| m.view())
}

/// Copies of `v[from..]`.
pub fn copy_suffix(v: &Vec<Message>, from: usize) -> (r: Vec<Message>)
    requires
        from <= v@.len(),
    ensures
        msgs_view(r@) == msgs_view(v@).skip(from as int),
{
    let mut r: Vec<Message> = Vec::new();
    let mut i = from;
    while i < v.len()
        invariant
            from <= i <= v@.len(),
            msgs_view(r@) == msgs_view(v@).subrange(from as int, i as int),
        decreases v@.len() - i,
    {
        let ghost before = r@;
        let m = v[i].copy();
        r.push(m);
        assert(msgs_view(r@) =~= msgs_view(before).push(v@[i as int].view()));
        assert(msgs_view(r@) =~= msgs_view(v@).subrange(from as int, i + 1));
        i = i + 1;
    }
    assert(msgs_view(v@).subrange(from as int, v@.len() as int) == msgs_view(v@).skip(from as int));
    r
}

/// The ids of the calls of an assistant message that makes tool calls.
pub open spec fn call_ids(m: MessageView) -> Set<Seq<char>> {
    if m.role == "assistant"@ {
        match m.tool_calls {
            Some(calls) => Set::new(|id: Seq<char>| exists|k: int| 0 <= k < calls.len() && calls[k].id == id),
            None => Set::empty(),
        }
    } else {
        Set::empty()
    }
}

/// The ids declared by the messages `msgs[from..to]`.
pub open spec fn declared_ids(msgs: Seq<MessageView>, from: int, to: int) -> Set<Seq<char>>
    decreases to - from,
{
    if to <= from {
        Set::empty()
    } else {
        declared_ids(msgs, from, to - 1).union(call_ids(msgs[to - 1]))
    }
}

/// A tool result whose call id is not among `declared`.
pub open spec fn orphan(m: MessageView, declared: Set<Seq<char>>) -> bool {
    &&& m.role == "tool"@
    &&& match m.tool_call_id {
        Some(t) => !declared.contains(t),
        None => false,
    }
}

/// Where the legal part of `msgs[..n]` starts: just after the last tool result whose
/// call was not declared since the previous such start.
pub open spec fn legal_start(msgs: Seq<MessageView>, n: int) -> int
    decreases n,
{
    if n <= 0 {
        0
    } else {
        let s = legal_start(msgs, n - 1);
        if orphan(msgs[n - 1], declared_ids(msgs, s, n - 1)) {
            n
        } else {
            s
        }
    }
}

/// The index of the first user message, if any.
pub open spec fn first_user(s: Seq<MessageView>) -> Option<int>
    decreases s.len(),
{
    if s.len() == 0 {
        None
    } else {
        match first_user(s.drop_last()) {
            Some(i) => Some(i),
            None => if s.last().role == "user"@ {
                Some(s.len() - 1)
            } else {
                None
            },
        }
    }
}

/// `s` from its first user message on; all of `s` when there is none.
pub open spec fn from_first_user(s: Seq<MessageView>) -> Seq<MessageView> {
    match first_user(s) {
        Some(i) => s.skip(i),
        None => s,
    }
}

/// `s` from its legal start on.
pub open spec fn legal_suffix(s: Seq<MessageView>) -> Seq<MessageView> {
    s.skip(legal_start(s, s.len() as int))
}

/// The history handed to the model: the messages after the consolidated ones, the
/// last `max_messages` of them when that is not 0, from the first user message on,
/// and from the legal start on.
pub open spec fn history_of(msgs: Seq<MessageView>, last_consolidated: int, max_messages: int) -> Seq<MessageView> {
    let unconsolidated = if last_consolidated >= msgs.len() {
        Seq::empty()
    } else {
        msgs.skip(last_consolidated)
    };
    let sliced = if max_messages > 0 && unconsolidated.len() > max_messages {
        unconsolidated.skip(unconsolidated.len() - max_messages)
    } else {
        unconsolidated
    };
    legal_suffix(from_first_user(sliced))
}

/// Walks back from `k` to the nearest user message, stopping at 0.
pub open spec fn back_to_user(msgs: Seq<MessageView>, k: int) -> int
    decreases k,
{
    if k <= 0 {
        0
    } else if msgs[k].role == "user"@ {
        k
    } else {
        back_to_user(msgs, k - 1)
    }
}

/// The messages kept when trimming to `max_messages` (`0 < max_messages < msgs.len()`).
pub open spec fn retained_suffix(msgs: Seq<MessageView>, max_messages: int) -> Seq<MessageView> {
    let start = msgs.len() - max_messages;
    let actual = back_to_user(msgs, start);
    let kept = if actual > 0 {
        msgs.skip(actual)
    } else {
        msgs.skip(start)
    };
    legal_suffix(kept)
}

fn is_role(m: &Message, role: &str) -> (r: bool)
    ensures
        r == (m.role@ == role@),
{
    str_eq(m.role.as_str(), role)
}

fn contains_id(ids: &Vec<String>, id: &String) -> (r: bool)
    ensures
        r == exists|k: int| 0 <= k < ids@.len() && ids@[k]@ == id@,
{
    let mut i: usize = 0;
    while i < ids.len()
        invariant
            i <= ids@.len(),
            forall|k: int| 0 <= k < i ==> ids@[k]@ != id@,
        decreases ids@.len() - i,
    {
        if ids[i] == *id {
            return true;
        }
        i = i + 1;
    }
    false
}

/// Index of the first message of the legal part of `messages`: after the last tool
/// result whose call was not declared by an assistant message since the previous such
/// point, so that no tool result is left without its call.
pub fn find_legal_start(messages: &Vec<Message>) -> (r: usize)
    ensures
        r == legal_start(msgs_view(messages@), messages@.len() as int),
        r <= messages@.len(),
{
    let ghost mv = msgs_view(messages@);
    let mut declared: Vec<String> = Vec::new();
    let mut start: usize = 0;
    let mut i: usize = 0;
    while i < messages.len()
        invariant
            mv == msgs_view(messages@),
            i <= messages@.len(),
            start as int == legal_start(mv, i as int),
            start <= i,
            forall|id: Seq<char>| #[trigger] declared_ids(mv, start as int, i as int).contains(id)
                <==> exists|k: int| 0 <= k < declared@.len() && #[trigger] declared@[k]@ == id,
        decreases messages@.len() - i,
    {
        let m = &messages[i];
        let ghost mview = mv[i as int];
        assert(mview == m.view());
        proof {
            reveal_strlit("assistant");
            reveal_strlit("tool");
            assert("assistant"@.len() == 9);
            assert("tool"@.len() == 4);
        }
        if is_role(m, "assistant") {
            match &m.tool_calls {
                Some(calls) => {
                    let ghost before = declared@;
                    let mut j: usize = 0;
                    while j < calls.len()
                        invariant
                            j <= calls@.len(),
                            declared@.len() == before.len() + j,
                            forall|k: int| 0 <= k < before.len() ==> declared@[k] == before[k],
                            forall|k: int| 0 <= k < j ==> #[trigger] declared@[before.len() + k]@ == calls@[k].id@,
                        decreases calls@.len() - j,
                    {
                        declared.push(calls[j].id.clone());
                        j = j + 1;
                    }
                    proof {
                        let cv = calls_view(calls@);
                        reveal_strlit("assistant");
                        reveal_strlit("tool");
                        assert(mview.tool_calls == Some(cv));
                        assert(declared_ids(mv, start as int, i + 1) == declared_ids(mv, start as int, i as int).union(call_ids(mview)));
                        assert(call_ids(mview) == Set::new(|id: Seq<char>| exists|k: int| 0 <= k < cv.len() && cv[k].id == id));
                        assert forall|id: Seq<char>| #[trigger] declared_ids(mv, start as int, i + 1).contains(id)
                            <==> exists|k: int| 0 <= k < declared@.len() && #[trigger] declared@[k]@ == id by {
                            if declared_ids(mv, start as int, i + 1).contains(id) {
                                if declared_ids(mv, start as int, i as int).contains(id) {
                                    let k = choose|k: int| 0 <= k < before.len() && before[k]@ == id;
                                    assert(declared@[k]@ == id);
                                } else {
                                    assert(call_ids(mview).contains(id));
                                    let k = choose|k: int| 0 <= k < cv.len() && cv[k].id == id;
                                    assert(declared@[before.len() + k]@ == id);
                                }
                            }
                            if exists|k: int| 0 <= k < declared@.len() && #[trigger] declared@[k]@ == id {
                                let k = choose|k: int| 0 <= k < declared@.len() && #[trigger] declared@[k]@ == id;
                                if k < before.len() {
                                    assert(before[k]@ == id);
                                } else {
                                    let q = k - before.len();
                                    assert(declared@[before.len() + q]@ == calls@[q].id@);
                                    assert(cv[q].id == id);
                                    assert(call_ids(mview).contains(id));
                                }
                            }
                        }
                        assert(mview.role == "assistant"@);
                        assert("assistant"@.len() == 9);
                        assert("tool"@.len() == 4);
                        assert(mview.role != "tool"@);
                        assert(!orphan(mview, declared_ids(mv, start as int, i as int)));
                    }
                },
                None => {
                    proof {
                        assert(call_ids(mview) =~= Set::<Seq<char>>::empty());
                        assert(declared_ids(mv, start as int, i + 1) =~= declared_ids(mv, start as int, i as int));
                    }
                },
            }
        } else {
            proof {
                assert(call_ids(mview) =~= Set::<Seq<char>>::empty());
                assert(declared_ids(mv, start as int, i + 1) =~= declared_ids(mv, start as int, i as int));
            }
            if is_role(m, "tool") {
                match &m.tool_call_id {
                    Some(tid) => {
                        if !contains_id(&declared, tid) {
                            start = i + 1;
                            declared = Vec::new();
                            proof {
                                assert(declared_ids(mv, start as int, i + 1) =~= Set::<Seq<char>>::empty());
                            }
                        }
                    },
                    None => {},
                }
            }
        }
        i = i + 1;
    }
    start
}

/// The current UTC time as an ISO 8601 string, `YYYY-MM-DDTHH:MM:SSZ`: some instant
/// with valid fields, shown with that format description (see `shown_time`).
pub fn chrono_now() -> (r: String)
    ensures
        exists|p: TimeParts| parts_valid(p) && r@ == #[trigger] shown_time(
            p,
            "[year]-[month]-[day]T[hour]:[minute]:[second]Z"@,
            "T"@,
            "Z"@,
        ),
{
    utc_now_formatted("[year]-[month]-[day]T[hour]:[minute]:[second]Z", "T", "Z")
}

/// A conversation session.
pub struct Session {
    pub key: String,
    pub messages: Vec<Message>,
    pub created_at: String,
    pub updated_at: String,
    /// Free-form metadata, each value kept as JSON text.
    pub metadata: StrMap<String>,
    pub last_consolidated: usize,
}

impl Session {
    pub open spec fn msgs(&self) -> Seq<MessageView> {
        msgs_view(self.messages@)
    }

    /// A new, empty session created now.
    pub fn new(key: String) -> (r: Self)
        ensures
            r.key@ == key@,
            r.messages@.len() == 0,
            r.last_consolidated == 0,
            r.created_at@ == r.updated_at@,
            r.metadata.wf(),
            r.metadata.view() == Map::<Seq<char>, String>::empty(),
    {
        let now = chrono_now();
        Session {
            key,
            messages: Vec::new(),
            created_at: now.clone(),
            updated_at: now,
            metadata: StrMap::new(),
            last_consolidated: 0,
        }
    }

    /// Appends a message with the current time as its timestamp.
    pub fn add_message(&mut self, role: &str, content: &str)
        ensures
            final(self).key == old(self).key,
            final(self).created_at == old(self).created_at,
            final(self).last_consolidated == old(self).last_consolidated,
            final(self).messages@.len() == old(self).messages@.len() + 1,
            final(self).msgs().drop_last() == old(self).msgs(),
            final(self).msgs().last().role == role@,
            final(self).msgs().last().content == content@,
            final(self).msgs().last().tool_calls is None,
            final(self).msgs().last().tool_call_id is None,
            final(self).msgs().last().name is None,
            final(self).msgs().last().timestamp is Some,
    {
        let msg = Message {
            role: to_string(role),
            content: to_string(content),
            tool_calls: None,
            tool_call_id: None,
            name: None,
            timestamp: Some(chrono_now()),
        };
        self.messages.push(msg);
        self.updated_at = chrono_now();
        assert(self.msgs().drop_last() =~= old(self).msgs());
    }

    /// Appends a message with all its fields and the current time as its timestamp.
    pub fn add_message_full(
        &mut self,
        role: &str,
        content: &str,
        tool_calls: Option<Vec<ToolCall>>,
        tool_call_id: Option<String>,
        name: Option<String>,
    )
        ensures
            final(self).key == old(self).key,
            final(self).created_at == old(self).created_at,
            final(self).last_consolidated == old(self).last_consolidated,
            final(self).messages@.len() == old(self).messages@.len() + 1,
            final(self).msgs().drop_last() == old(self).msgs(),
            final(self).msgs().last().role == role@,
            final(self).msgs().last().content == content@,
            final(self).msgs().last().tool_calls == match tool_calls {
                Some(v) => Some(calls_view(v@)),
                None => None,
            },
            final(self).msgs().last().tool_call_id == opt_str(tool_call_id),
            final(self).msgs().last().name == opt_str(name),
            final(self).msgs().last().timestamp is Some,
    {
        let msg = Message {
            role: to_string(role),
            content: to_string(content),
            tool_calls,
            tool_call_id,
            name,
            timestamp: Some(chrono_now()),
        };
        self.messages.push(msg);
        self.updated_at = chrono_now();
        assert(self.msgs().drop_last() =~= old(self).msgs());
    }

    /// Index of the legal start of `messages` (see `find_legal_start`).
    pub fn find_legal_start(&self, messages: &Vec<Message>) -> (r: usize)
        ensures
            r == legal_start(msgs_view(messages@), messages@.len() as int),
            r <= messages@.len(),
    {
        find_legal_start(messages)
    }

    /// The history for the model, aligned to legal tool-call boundaries (see
    /// `history_of`).
    pub fn get_history(&self, max_messages: usize) -> (r: Vec<Message>)
        ensures
            msgs_view(r@) == history_of(self.msgs(), self.last_consolidated as int, max_messages as int),
            exists|k: int|
                #![trigger self.msgs().subrange(k, self.msgs().len() as int)]
                0 <= k <= self.msgs().len() && (k >= self.last_consolidated || k == self.msgs().len())
                    && msgs_view(r@) == self.msgs().subrange(k, self.msgs().len() as int),
    {
        proof {
            crate::laws::law_history_skips_consolidated(self.msgs(), self.last_consolidated as int, max_messages as int);
        }
        let ghost mv = self.msgs();
        let n = self.messages.len();
        let unconsolidated: Vec<Message> = if self.last_consolidated >= n {
            Vec::new()
        } else {
            copy_suffix(&self.messages, self.last_consolidated)
        };
        proof {
            if self.last_consolidated >= n {
                assert(msgs_view(unconsolidated@) =~= Seq::<MessageView>::empty());
            }
        }
        let u = unconsolidated.len();
        let sliced: Vec<Message> = if max_messages > 0 && u > max_messages {
            copy_suffix(&unconsolidated, u - max_messages)
        } else {
            unconsolidated
        };
        let ghost sv = msgs_view(sliced@);
        let mut first: usize = 0;
        while first < sliced.len() && !is_role(&sliced[first], "user")
            invariant
                first <= sliced@.len(),
                sv == msgs_view(sliced@),
                first_user(sv.take(first as int)) is None,
            decreases sliced@.len() - first,
        {
            proof {
                assert(sv.take(first + 1).drop_last() == sv.take(first as int));
                assert(sv.take(first + 1).last() == sliced@[first as int].view());
            }
            first = first + 1;
        }
        proof {
            lemma_first_user_extend(sv, first as int);
        }
        let result: Vec<Message> = if first < sliced.len() {
            copy_suffix(&sliced, first)
        } else {
            assert(sv.skip(0) == sv);
            sliced
        };
        let ghost rv = msgs_view(result@);
        assert(rv == from_first_user(sv));
        let start = find_legal_start(&result);
        if start > 0 {
            copy_suffix(&result, start)
        } else {
            assert(rv.skip(0) == rv);
            result
        }
    }

    /// Drops all messages and resets the consolidation cursor.
    pub fn clear(&mut self)
        ensures
            final(self).messages@.len() == 0,
            final(self).last_consolidated == 0,
            final(self).key == old(self).key,
            final(self).created_at == old(self).created_at,
    {
        self.messages = Vec::new();
        self.last_consolidated = 0;
        self.updated_at = chrono_now();
    }

    /// Keeps only a recent suffix of at most about `max_messages` messages that starts
    /// at a user turn where possible and at a legal tool-call boundary; the
    /// consolidation cursor moves back by the number of messages dropped.
    pub fn retain_recent_legal_suffix(&mut self, max_messages: usize)
        ensures
            final(self).key == old(self).key,
            final(self).created_at == old(self).created_at,
            max_messages == 0 ==> final(self).messages@.len() == 0 && final(self).last_consolidated == 0,
            (max_messages > 0 && old(self).messages@.len() <= max_messages) ==> final(self).msgs() == old(self).msgs()
                && final(self).last_consolidated == old(self).last_consolidated
                && final(self).updated_at == old(self).updated_at,
            (max_messages > 0 && old(self).messages@.len() > max_messages) ==> {
                let kept = retained_suffix(old(self).msgs(), max_messages as int);
                let dropped = old(self).messages@.len() - kept.len();
                &&& final(self).msgs() == kept
                &&& final(self).last_consolidated == if old(self).last_consolidated >= dropped {
                    old(self).last_consolidated - dropped
                } else {
                    0
                }
            },
    {
        if max_messages == 0 {
            self.clear();
            return;
        }
        let n = self.messages.len();
        if n <= max_messages {
            return;
        }
        let ghost mv = self.msgs();
        let start_idx = n - max_messages;
        let mut actual = start_idx;
        while actual > 0 && !is_role(&self.messages[actual], "user")
            invariant
                actual <= start_idx < n,
                n == self.messages@.len(),
                mv == self.msgs(),
                back_to_user(mv, start_idx as int) == back_to_user(mv, actual as int),
            decreases actual,
        {
            assert(mv[actual as int] == self.messages@[actual as int].view());
            actual = actual - 1;
        }
        proof {
            if actual > 0 {
                assert(mv[actual as int] == self.messages@[actual as int].view());
            }
        }
        let retained = if actual > 0 {
            copy_suffix(&self.messages, actual)
        } else {
            copy_suffix(&self.messages, start_idx)
        };
        let start = find_legal_start(&retained);
        let retained = if start > 0 {
            copy_suffix(&retained, start)
        } else {
            assert(msgs_view(retained@).skip(0) == msgs_view(retained@));
            retained
        };
        assert(retained@.len() == msgs_view(retained@).len());
        let dropped = n - retained.len();
        self.messages = retained;
        self.last_consolidated = if self.last_consolidated >= dropped {
            self.last_consolidated - dropped
        } else {
            0
        };
        self.updated_at = chrono_now();
    }
}

proof fn lemma_first_user_extend(s: Seq<MessageView>, f: int)
    requires
        0 <= f <= s.len(),
        first_user(s.take(f)) is None,
        f < s.len() ==> s[f].role == "user"@,
    ensures
        f < s.len() ==> first_user(s) == Some(f),
        f == s.len() ==> first_user(s) is None,
    decreases s.len() - f,
{
    if f == s.len() {
        assert(s.take(f) == s);
    } else {
        lemma_first_user_prefix(s, f + 1);
        assert(s.take(f + 1).drop_last() == s.take(f));
    }
}

proof fn lemma_first_user_prefix(s: Seq<MessageView>, n: int)
    requires
        0 <= n <= s.len(),
        first_user(s.take(n)) is Some,
    ensures
        first_user(s) == first_user(s.take(n)),
    decreases s.len() - n,
{
    if n < s.len() {
        assert(s.take(n + 1).drop_last() == s.take(n));
        lemma_first_user_prefix(s, n + 1);
    } else {
        assert(s.take(n) == s);
    }
}

/// A key made safe as a file name: every `:` becomes `_`.
pub fn safe_filename(key: &str) -> (r: String)
    ensures
        r@ == key@.map_values(|c: char| if c == ':' { '_' } else { c }),
{
    let cs = chars_of(key);
    let mut out: Vec<char> = Vec::new();
    let mut i: usize = 0;
    while i < cs.len()
        invariant
            i <= cs@.len(),
            out@ == cs@.take(i as int).map_values(|c: char| if c == ':' { '_' } else { c }),
        decreases cs@.len() - i,
    {
        let c = cs[i];
        out.push(if c == ':' { '_' } else { c });
        assert(out@ =~= cs@.take(i + 1).map_values(|c: char| if c == ':' { '_' } else { c }));
        i = i + 1;
    }
    assert(cs@.take(cs@.len() as int) == cs@);
    string_of(&out)
}

/// Session info for listing.
pub struct SessionInfo {
    pub key: String,
    pub created_at: Option<String>,
    pub updated_at: Option<String>,
    pub path: String,
}

} // verus!

verus! {

/// The name of the file a session is saved in: its safe key with `.jsonl`.
pub fn session_file_name(key: &str) -> (r: String)
    ensures
        r@ == key@.map_values(|c: char| if c == ':' { '_' } else { c }) + ".jsonl"@,
{
    let mut r = safe_filename(key);
    r.append(".jsonl");
    r
}

/// The session key a file stem stands for: every `_` read back as `:`.
pub fn key_from_stem(stem: &str) -> (r: String)
    ensures
        r@ == stem@.map_values(|c: char| if c == '_' { ':' } else { c }),
{
    let cs = chars_of(stem);
    let mut out: Vec<char> = Vec::new();
    let mut i: usize = 0;
    while i < cs.len()
        invariant
            cs@ == stem@,
            i <= cs@.len(),
            out@ == cs@.take(i as int).map_values(|c: char| if c == '_' { ':' } else { c }),
        decreases cs@.len() - i,
    {
        let c = cs[i];
        out.push(if c == '_' { ':' } else { c });
        assert(out@ =~= cs@.take(i + 1).map_values(|c: char| if c == '_' { ':' } else { c }));
        i = i + 1;
    }
    assert(cs@.take(cs@.len() as int) == cs@);
    string_of(&out)
}

/// The first line of a saved session.
pub struct SessionMetadata {
    pub key: String,
    pub created_at: String,
    pub updated_at: String,
    pub metadata: StrMap<String>,
    pub last_consolidated: usize,
}

/// A line of a saved session, as read.
pub enum SessionLine {
    /// A line marked as metadata; `None` when its fields could not be read.
    Metadata(Option<SessionMetadata>),
    /// A message.
    Message(Message),
    /// Anything else: skipped.
    Other,
}

/// The metadata a saved session ends up with: that of its last metadata line.
pub open spec fn last_metadata(lines: Seq<SessionLine>) -> Option<SessionMetadata>
    decreases lines.len(),
{
    if lines.len() == 0 {
        None
    } else {
        match lines.last() {
            SessionLine::Metadata(m) => m,
            _ => last_metadata(lines.drop_last()),
        }
    }
}

/// The messages of a saved session, in order.
pub open spec fn line_messages(lines: Seq<SessionLine>) -> Seq<MessageView>
    decreases lines.len(),
{
    if lines.len() == 0 {
        Seq::empty()
    } else {
        let r = line_messages(lines.drop_last());
        match lines.last() {
            SessionLine::Message(m) => r.push(m.view()),
            _ => r,
        }
    }
}

/// The session that the lines of its file describe; `None` without readable metadata.
pub fn assemble_session(lines: Vec<SessionLine>) -> (r: Option<Session>)
    ensures
        match last_metadata(lines@) {
            None => r is None,
            Some(m) => r matches Some(s) && {
                &&& s.key@ == m.key@
                &&& s.created_at@ == m.created_at@
                &&& s.updated_at@ == m.updated_at@
                &&& s.metadata == m.metadata
                &&& s.last_consolidated == m.last_consolidated
                &&& s.msgs() == line_messages(lines@)
            },
        },
{
    let ghost all = lines@;
    let mut rest = lines;
    let mut found = false;
    let mut meta: Option<SessionMetadata> = None;
    let mut reversed: Vec<Message> = Vec::new();
    let n = rest.len();
    while rest.len() > 0
        invariant
            rest@ == all.take(rest@.len() as int),
            rest@.len() <= n,
            n == all.len(),
            found ==> meta == last_metadata(all),
            !found ==> meta is None,
            !found ==> last_metadata(all) == last_metadata(rest@),
            line_messages(all) == line_messages(rest@) + msgs_view(reversed@).reverse(),
        decreases rest@.len(),
    {
        let ghost before = rest@;
        let line = rest.pop().unwrap();
        proof {
            assert(before == rest@.push(line));
            assert(before.drop_last() =~= rest@);
            assert(all.take(rest@.len() as int) =~= all.take(before.len() as int).drop_last());
        }
        match line {
            SessionLine::Metadata(m) => {
                if !found {
                    meta = m;
                    found = true;
                }
            },
            SessionLine::Message(msg) => {
                let ghost rb = reversed@;
                let ghost mv = msg.view();
                reversed.push(msg);
                proof {
                    assert(msgs_view(reversed@) =~= msgs_view(rb).push(mv));
                    assert(msgs_view(reversed@).reverse() =~= seq![mv] + msgs_view(rb).reverse());
                }
            },
            SessionLine::Other => {},
        }
    }
    proof {
        assert(line_messages(rest@) =~= Seq::<MessageView>::empty());
        if !found {
            assert(rest@.len() == 0);
            assert(last_metadata(rest@) is None);
        }
        assert(meta == last_metadata(all));
    }
    let m = match meta {
        Some(m) => m,
        None => return None,
    };
    let mut messages: Vec<Message> = Vec::new();
    while reversed.len() > 0
        invariant
            line_messages(all) == msgs_view(messages@) + msgs_view(reversed@).reverse(),
        decreases reversed@.len(),
    {
        let ghost rb = reversed@;
        let ghost m0 = messages@;
        let msg = reversed.pop().unwrap();
        let ghost mv = msg.view();
        messages.push(msg);
        proof {
            assert(rb == reversed@.push(msg));
            assert(msgs_view(rb) =~= msgs_view(reversed@).push(mv));
            assert(msgs_view(rb).reverse() =~= seq![mv] + msgs_view(reversed@).reverse());
            assert(msgs_view(messages@) =~= msgs_view(m0).push(mv));
        }
    }
    assert(msgs_view(reversed@).reverse() =~= Seq::<MessageView>::empty());
    assert(msgs_view(messages@) =~= line_messages(all));
    Some(Session {
        key: m.key,
        messages,
        created_at: m.created_at,
        updated_at: m.updated_at,
        metadata: m.metadata,
        last_consolidated: m.last_consolidated,
    })
}

} // verus!

verus! {

/// `a` is a later update time than `b`: any time is later than none, and times
/// compare as text.
pub open spec fn later(a: Option<Seq<char>>, b: Option<Seq<char>>) -> bool {
    match (a, b) {
        (Some(x), Some(y)) => crate::text::lex_lt(y, x),
        (Some(_), None) => true,
        (None, _) => false,
    }
}

/// A listed session tagged with its place in the listing it came from.
pub open spec fn tag_leq(a: (Option<Seq<char>>, int), b: (Option<Seq<char>>, int)) -> bool {
    later(a.0, b.0) || (a.0 == b.0 && a.1 <= b.1)
}

pub open spec fn tag_order() -> spec_fn((Option<Seq<char>>, int), (Option<Seq<char>>, int)) -> bool {
    |a: (Option<Seq<char>>, int), b: (Option<Seq<char>>, int)| tag_leq(a, b)
}

/// The update times of a listing, each with its place.
pub open spec fn tags(v: Seq<SessionInfo>) -> Seq<(Option<Seq<char>>, int)> {
    Seq::new(v.len(), |i: int| (opt_str(v[i].updated_at), i))
}

/// The listing ordered by update time, latest first; sessions updated at the same
/// time keep their order.
pub open spec fn newest_first(v: Seq<SessionInfo>) -> Seq<SessionInfo> {
    tags(v).sort_by(tag_order()).map_values(|t: (Option<Seq<char>>, int)| v[t.1])
}

proof fn lemma_later_facts(a: Option<Seq<char>>, b: Option<Seq<char>>, c: Option<Seq<char>>)
    ensures
        !later(a, a),
        !(later(a, b) && later(b, a)),
        a != b ==> later(a, b) || later(b, a),
        later(a, b) && later(b, c) ==> later(a, c),
{
    match a {
        Some(x) => crate::text::lemma_lex_irreflexive(x),
        None => {},
    }
    match (a, b) {
        (Some(x), Some(y)) => crate::text::lemma_lex_total(x, y),
        _ => {},
    }
    match (a, b, c) {
        (Some(x), Some(y), Some(z)) => {
            if crate::text::lex_lt(y, x) && crate::text::lex_lt(z, y) {
                crate::text::lemma_lex_transitive(z, y, x);
            }
        },
        _ => {},
    }
}

proof fn lemma_tag_order_total()
    ensures
        vstd::relations::total_ordering(tag_order()),
{
    let r = tag_order();
    assert forall|x: (Option<Seq<char>>, int)| #[trigger] r(x, x) by {}
    assert forall|x: (Option<Seq<char>>, int), y: (Option<Seq<char>>, int)| #[trigger] r(x, y) && #[trigger] r(y, x) implies x
        == y by {
        lemma_later_facts(x.0, y.0, y.0);
    }
    assert forall|x: (Option<Seq<char>>, int), y: (Option<Seq<char>>, int), z: (Option<Seq<char>>, int)| #[trigger] r(
        x,
        y,
    ) && #[trigger] r(y, z) implies r(x, z) by {
        lemma_later_facts(x.0, y.0, z.0);
    }
    assert forall|x: (Option<Seq<char>>, int), y: (Option<Seq<char>>, int)| #[trigger] r(x, y) || #[trigger] r(y, x) by {
        lemma_later_facts(x.0, y.0, y.0);
    }
}

fn is_later(a: &Option<String>, b: &Option<String>) -> (r: bool)
    ensures
        r == later(opt_str(*a), opt_str(*b)),
{
    match (a, b) {
        (Some(x), Some(y)) => crate::text::str_lt(y.as_str(), x.as_str()),
        (Some(_), None) => true,
        (None, _) => false,
    }
}

/// The sessions ordered by update time, latest first (see `newest_first`).
pub fn sort_newest_first(v: Vec<SessionInfo>) -> (r: Vec<SessionInfo>)
    ensures
        r@ == newest_first(v@),
{
    broadcast use vstd::seq_lib::group_to_multiset_ensures;
    let ghost orig = v@;
    let ghost all = tags(orig);
    let mut rest = v;
    let total = rest.len();
    let mut reversed: Vec<SessionInfo> = Vec::new();
    while rest.len() > 0
        invariant
            orig.len() == all.len(),
            rest@ == orig.take(rest@.len() as int),
            reversed@.len() + rest@.len() == orig.len(),
            forall|k: int| 0 <= k < reversed@.len() ==> #[trigger] reversed@[k] == orig[orig.len() - 1 - k],
        decreases rest@.len(),
    {
        let ghost before = rest@;
        let x = rest.pop().unwrap();
        proof {
            assert(before == rest@.push(x));
            assert(orig.take(rest@.len() as int) =~= orig.take(before.len() as int).drop_last());
        }
        reversed.push(x);
    }
    let mut r: Vec<SessionInfo> = Vec::new();
    let ghost mut rt: Seq<(Option<Seq<char>>, int)> = Seq::empty();
    let mut i: usize = 0;
    proof {
        lemma_tag_order_total();
        assert(all.take(0).to_multiset() =~= rt.to_multiset());
    }
    while reversed.len() > 0
        invariant
            orig.len() == all.len(),
            total == orig.len(),
            all == tags(orig),
            i + reversed@.len() == orig.len(),
            forall|k: int| 0 <= k < reversed@.len() ==> #[trigger] reversed@[k] == orig[orig.len() - 1 - k],
            rt.len() == r@.len(),
            forall|k: int| 0 <= k < rt.len() ==> 0 <= (#[trigger] rt[k]).1 < i && r@[k] == orig[rt[k].1] && rt[k] == all[rt[k].1],
            rt.to_multiset() == all.take(i as int).to_multiset(),
            forall|a: int, b: int| 0 <= a < b < rt.len() ==> tag_leq(#[trigger] rt[a], #[trigger] rt[b]),
            vstd::relations::total_ordering(tag_order()),
        decreases reversed@.len(),
    {
        let ghost rb = reversed@;
        let x = reversed.pop().unwrap();
        proof {
            assert(rb == reversed@.push(x));
            assert(x == orig[i as int]);
        }
        let ghost tx = all[i as int];
        let mut p: usize = 0;
        while p < r.len() && !is_later(&x.updated_at, &r[p].updated_at)
            invariant
                p <= r@.len(),
                rt.len() == r@.len(),
                tx.0 == opt_str(x.updated_at),
                tx.1 == i,
                forall|k: int| 0 <= k < rt.len() ==> 0 <= (#[trigger] rt[k]).1 < i && r@[k] == orig[rt[k].1] && rt[k] == all[rt[k].1],
                all == tags(orig),
                orig.len() == all.len(),
                i < orig.len(),
                forall|a: int| 0 <= a < p ==> tag_leq(#[trigger] rt[a], tx),
            decreases r@.len() - p,
        {
            proof {
                assert(r@[p as int] == orig[rt[p as int].1]);
                assert(rt[p as int].0 == opt_str(r@[p as int].updated_at));
                lemma_later_facts(rt[p as int].0, tx.0, tx.0);
            }
            p = p + 1;
        }
        proof {
            let ord = tag_order();
            if p < r@.len() {
                assert(r@[p as int] == orig[rt[p as int].1]);
                assert(rt[p as int].0 == opt_str(r@[p as int].updated_at));
                assert(later(tx.0, rt[p as int].0));
                assert forall|a: int| p <= a < rt.len() implies tag_leq(tx, #[trigger] rt[a]) by {
                    if a > p {
                        assert(ord(tx, rt[p as int]) && ord(rt[p as int], rt[a]));
                    }
                }
            }
        }
        let ghost old_r = r@;
        let ghost old_rt = rt;
        r.insert(p, x);
        proof {
            rt = old_rt.insert(p as int, tx);
            vstd::seq_lib::to_multiset_insert(old_rt, p as int, tx);
            assert(all.take(i + 1) =~= all.take(i as int).push(tx));
            vstd::seq_lib::to_multiset_build(all.take(i as int), tx);
            assert forall|a: int, b: int| 0 <= a < b < rt.len() implies tag_leq(#[trigger] rt[a], #[trigger] rt[b]) by {
                let oa = if a < p { a } else { a - 1 };
                let ob = if b < p { b } else { b - 1 };
                if a == p {
                    assert(rt[b] == old_rt[ob]);
                } else if b == p {
                    assert(rt[a] == old_rt[oa]);
                } else {
                    assert(rt[a] == old_rt[oa]);
                    assert(rt[b] == old_rt[ob]);
                }
            }
            assert forall|k: int| 0 <= k < rt.len() implies 0 <= (#[trigger] rt[k]).1 < i + 1 && r@[k] == orig[rt[k].1]
                && rt[k] == all[rt[k].1] by {
                if k < p {
                    assert(rt[k] == old_rt[k] && r@[k] == old_r[k]);
                } else if k > p {
                    assert(rt[k] == old_rt[k - 1] && r@[k] == old_r[k - 1]);
                }
            }
        }
        i = i + 1;
    }
    proof {
        let ord = tag_order();
        assert(all.take(all.len() as int) =~= all);
        assert forall|a: int, b: int| 0 <= a < b < rt.len() implies #[trigger] ord(rt[a], rt[b]) by {
            assert(tag_leq(rt[a], rt[b]));
        }
        all.lemma_sort_by_ensures(ord);
        vstd::seq_lib::lemma_sorted_unique(rt, all.sort_by(ord), ord);
        let sorted = all.sort_by(ord);
        assert(r@ =~= sorted.map_values(|t: (Option<Seq<char>>, int)| orig[t.1]));
    }
    r
}

} // verus!

verus! {

/// The key a listed session goes by: the one its metadata names, else the one its
/// file stem stands for.
pub fn listed_key(metadata_key: Option<String>, stem: &str) -> (r: String)
    ensures
        r@ == match metadata_key {
            Some(k) => k@,
            None => stem@.map_values(|c: char| if c == '_' { ':' } else { c }),
        },
{
    match metadata_key {
        Some(k) => k,
        None => key_from_stem(stem),
    }
}

} // verus!

verus! {

pub proof fn lemma_tags_sort_len(v: Seq<SessionInfo>)
    ensures
        tags(v).sort_by(tag_order()).len() == v.len(),
{
    broadcast use vstd::seq_lib::group_to_multiset_ensures;
    lemma_tag_order_total();
    tags(v).lemma_sort_by_ensures(tag_order());
    assert(tags(v).to_multiset().len() == tags(v).len());
    assert(tags(v).sort_by(tag_order()).to_multiset().len() == tags(v).sort_by(tag_order()).len());
}

} // verus!

verus! {

pub proof fn lemma_newest_first_ordered(v: Seq<SessionInfo>)
    ensures
        forall|i: int, j: int|
            0 <= i < j < newest_first(v).len() ==> !later(
                opt_str(#[trigger] newest_first(v)[j].updated_at),
                opt_str(#[trigger] newest_first(v)[i].updated_at),
            ),
{
    let ord = tag_order();
    lemma_tag_order_total();
    let t = tags(v);
    t.lemma_sort_by_ensures(ord);
    lemma_tags_sort_len(v);
    let s = t.sort_by(ord);
    let nf = newest_first(v);
    assert forall|k: int| 0 <= k < s.len() implies opt_str(#[trigger] nf[k].updated_at) == s[k].0 by {
        assert(s.contains(s[k]));
        assert(t.contains(s[k]));
        let q = choose|q: int| 0 <= q < t.len() && t[q] == s[k];
        assert(t[q] == (opt_str(v[q].updated_at), q));
    }
    assert forall|i: int, j: int| 0 <= i < j < nf.len() implies !later(
        opt_str(#[trigger] nf[j].updated_at),
        opt_str(#[trigger] nf[i].updated_at),
    ) by {
        assert(opt_str(nf[i].updated_at) == s[i].0);
        assert(opt_str(nf[j].updated_at) == s[j].0);
        assert(ord(s[i], s[j]));
        lemma_later_facts(s[i].0, s[j].0, s[j].0);
    }
}

} // verus!
