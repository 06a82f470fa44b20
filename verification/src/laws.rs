//! What holds of the library as a whole: of the sandbox, the host lists, the key
//! value stores, capability merging, conversation histories, listings and edits.

use crate::agent::{message_model_calls, poll_cursor, turn_run, CommandRoute, TurnEnd};
use crate::sdk::ChatResponse;
use crate::commands::{lists_commands, sorted_by_name};
use crate::config::CapabilitiesOverride;
use crate::fs_host::{access_allowed, gate, write_gate, FsAccess};
use crate::fs_tools::{
    entry_item, entry_keys, entry_order, first_line, list_output, listing_text, magic_mime, page_body, page_line,
    page_lines, page_note, read_output, unignored, DirListing, FileRead, ListedEntry,
};
use crate::http_policy::{any_covers, host_allowed};
use crate::kv::{namespace, nested_get, readable};
use crate::session::{newest_first, tag_order, tags, SessionInfo};
use crate::manifest::{merged, same_capabilities, Capabilities};
use crate::path::{has_prefix, is_abs, Part};
use crate::context::{image_urls, plain_message, runtime_context, turn_messages, MediaFile, PromptSources};
use crate::providers::{chat_body, message_json, spec_json_string, tool_json, ChatMessage};
use crate::agent::ToolDef;
use crate::sandbox::{path_candidate, workspace_candidate, outside_msg, in_list, path_views, permitted, read_resolution, write_resolution, FsContext, WriteAnswers};
use crate::session::{declared_ids, history_of, legal_start, legal_suffix, orphan, retained_suffix, MessageView};
use crate::text::{count_matches, decimal, join_seq, occurs_at, replace_seq, split_char};
use vstd::prelude::*;
use vstd::utf8::{decode_utf8, valid_utf8};

verus! {

/// A path that resolving for reading accepts lies inside the allowed root, whatever
/// the filesystem answered.
pub proof fn law_read_resolution_inside_root(
    root: Seq<Part>,
    ws: Result<Seq<Part>, Seq<char>>,
    p: Result<Seq<Part>, Seq<char>>,
)
    ensures
        read_resolution(root, ws, p) matches Ok(q) ==> has_prefix(q, root),
{
}

/// A workspace, or else a path, that canonicalizes outside the root is refused with
/// the message naming it as outside the allowed root.
pub proof fn law_escape_refused_with_message(
    root: Seq<Part>,
    w: Seq<Part>,
    p: Result<Seq<Part>, Seq<char>>,
    q: Seq<Part>,
)
    ensures
        !has_prefix(w, root) ==> read_resolution(root, Ok(w), p) == Err::<Seq<Part>, Seq<char>>(
            outside_msg("Workspace"@, w, root),
        ),
        has_prefix(w, root) && !has_prefix(q, root) ==> read_resolution(root, Ok(w), Ok(q)) == Err::<
            Seq<Part>,
            Seq<char>,
        >(outside_msg("Path"@, q, root)),
{
}

/// A path that resolving for writing accepts lies inside the allowed root, whatever
/// the filesystem answered.
pub proof fn law_write_resolution_inside_root(root: Seq<Part>, path: Seq<Part>, a: WriteAnswers)
    ensures
        write_resolution(root, path, a) matches Ok(q) ==> has_prefix(q, root),
{
}

/// A request that the host lets through names a path inside the root that the
/// context permits for that access.
pub proof fn law_gate_only_permitted(ctx: FsContext, a: FsAccess, path_text: Seq<char>, res: Result<Seq<Part>, Seq<char>>)
    ensures
        gate(ctx, a, path_text, res) matches Ok(q) ==> access_allowed(ctx, a, q) && has_prefix(q, ctx.root()),
{
}

/// A write that the host lets through targets a path inside the root that the write
/// lists permit, in a context whose root resolved.
pub proof fn law_write_gate_only_permitted(ctx: FsContext, res: Result<Seq<Part>, Seq<char>>)
    ensures
        write_gate(ctx, res) matches Some(q) ==> has_prefix(q, ctx.root()) && ctx.root_resolved && permitted(
            ctx.root(),
            path_views(ctx.write_whitelist@),
            path_views(ctx.write_blacklist@),
            q,
        ),
{
}

/// A context whose root did not canonicalize denies every access.
pub proof fn law_unresolved_root_denies_all(ctx: FsContext, a: FsAccess, p: Seq<Part>)
    requires
        !ctx.root_resolved,
    ensures
        !access_allowed(ctx, a, p),
        !ctx.writable(p),
{
}

/// A blacklisted path is refused even when the whitelist names it: the blacklist
/// takes precedence.
pub proof fn law_blacklist_precedence(
    root: Seq<Part>,
    whitelist: Seq<Seq<Part>>,
    blacklist: Seq<Seq<Part>>,
    p: Seq<Part>,
)
    requires
        in_list(p, blacklist),
    ensures
        !permitted(root, whitelist, blacklist, p),
{
}

/// With an empty whitelist, every path inside the root that is not blacklisted is
/// permitted.
pub proof fn law_empty_whitelist_permits_root(root: Seq<Part>, blacklist: Seq<Seq<Part>>, p: Seq<Part>)
    requires
        has_prefix(p, root),
        !in_list(p, blacklist),
    ensures
        permitted(root, Seq::empty(), blacklist, p),
{
}

/// A path outside the root is never permitted, whatever the lists say.
pub proof fn law_outside_root_refused(root: Seq<Part>, whitelist: Seq<Seq<Part>>, blacklist: Seq<Seq<Part>>, p: Seq<Part>)
    requires
        !has_prefix(p, root),
    ensures
        !permitted(root, whitelist, blacklist, p),
{
}

/// A request to a host that a denied pattern covers is refused, even when an allowed
/// pattern covers it too.
pub proof fn law_denied_host_precedence(allowed: Seq<Seq<char>>, denied: Seq<Seq<char>>, url: Seq<char>)
    requires
        any_covers(denied, crate::http_policy::request_host(url)),
    ensures
        !host_allowed(allowed, denied, url),
{
}

/// A plugin without allowed hosts reaches no host.
pub proof fn law_no_allowed_hosts_no_requests(denied: Seq<Seq<char>>, url: Seq<char>)
    ensures
        !host_allowed(Seq::empty(), denied, url),
{
}

/// After a value is stored under a key of a namespace, reading that key of that
/// namespace gives the value back.
pub proof fn law_kv_read_after_write(
    store: Map<Seq<char>, Map<Seq<char>, Seq<u8>>>,
    ns: Seq<char>,
    key: Seq<char>,
    value: Seq<u8>,
)
    ensures
        nested_get(store.insert(ns, namespace(store, ns).insert(key, value)), ns, key) == Some(value),
{
}

/// Storing under one key leaves every other key of every namespace as it was; in
/// particular namespaces of other lambdas are untouched.
pub proof fn law_kv_writes_isolated(
    store: Map<Seq<char>, Map<Seq<char>, Seq<u8>>>,
    ns: Seq<char>,
    key: Seq<char>,
    value: Seq<u8>,
    other_ns: Seq<char>,
    other_key: Seq<char>,
)
    requires
        ns != other_ns || key != other_key,
    ensures
        nested_get(store.insert(ns, namespace(store, ns).insert(key, value)), other_ns, other_key) == nested_get(
            store,
            other_ns,
            other_key,
        ),
{
}

/// After a key is removed from a namespace, reading it gives nothing.
pub proof fn law_kv_remove_then_get(store: Map<Seq<char>, Map<Seq<char>, Seq<u8>>>, ns: Seq<char>, key: Seq<char>)
    ensures
        nested_get(
            if store.contains_key(ns) {
                store.insert(ns, store[ns].remove(key))
            } else {
                store
            },
            ns,
            key,
        ) is None,
{
}

/// A lambda may always read its own namespace.
pub proof fn law_own_namespace_readable(own: Seq<char>, allowed: Seq<Seq<char>>)
    ensures
        readable(own, allowed, own),
{
}

/// A lambda reads another lambda's namespace only when that lambda is granted.
pub proof fn law_foreign_read_needs_grant(own: Seq<char>, allowed: Seq<Seq<char>>, target: Seq<char>)
    requires
        target != own,
        !allowed.contains(target),
    ensures
        !readable(own, allowed, target),
{
}

/// Merging empty overrides keeps the manifest's capabilities.
pub proof fn law_merge_empty_keeps_manifest(base: Capabilities, r: Capabilities)
    requires
        merged(base, CapabilitiesOverride { network: None, fs: None, allowed_kv_read: None }, r),
    ensures
        same_capabilities(base, r),
{
    assert(crate::text::views(base.network.allowed_hosts@) + Seq::<Seq<char>>::empty() =~= crate::text::views(base.network.allowed_hosts@));
    assert(crate::text::views(base.network.denied_hosts@) + Seq::<Seq<char>>::empty() =~= crate::text::views(base.network.denied_hosts@));
    assert(crate::text::views(base.fs.read_whitelist@) + Seq::<Seq<char>>::empty() =~= crate::text::views(base.fs.read_whitelist@));
    assert(crate::text::views(base.fs.write_whitelist@) + Seq::<Seq<char>>::empty() =~= crate::text::views(base.fs.write_whitelist@));
    assert(crate::text::views(base.fs.read_blacklist@) + Seq::<Seq<char>>::empty() =~= crate::text::views(base.fs.read_blacklist@));
    assert(crate::text::views(base.fs.write_blacklist@) + Seq::<Seq<char>>::empty() =~= crate::text::views(base.fs.write_blacklist@));
    assert(crate::text::views(base.allowed_kv_read@) + Seq::<Seq<char>>::empty() =~= crate::text::views(base.allowed_kv_read@));
}

/// Every tool result in `h` answers a call that an assistant message before it,
/// within `h`, declared.
pub open spec fn tool_results_answered(h: Seq<MessageView>) -> bool {
    forall|i: int| 0 <= i < h.len() ==> !orphan(#[trigger] h[i], declared_ids(h, 0, i))
}

proof fn lemma_legal_start_range(msgs: Seq<MessageView>, n: int)
    requires
        0 <= n <= msgs.len(),
    ensures
        0 <= legal_start(msgs, n) <= n,
        forall|j: int| legal_start(msgs, n) <= j < n ==> !orphan(#[trigger] msgs[j], declared_ids(msgs, legal_start(msgs, n), j)),
    decreases n,
{
    if n > 0 {
        lemma_legal_start_range(msgs, n - 1);
    }
}

proof fn lemma_declared_shift(msgs: Seq<MessageView>, s: int, i: int)
    requires
        0 <= s <= msgs.len(),
        0 <= i <= msgs.len() - s,
    ensures
        declared_ids(msgs.skip(s), 0, i) == declared_ids(msgs, s, s + i),
    decreases i,
{
    if i > 0 {
        lemma_declared_shift(msgs, s, i - 1);
        assert(msgs.skip(s)[i - 1] == msgs[s + i - 1]);
    }
}

/// The legal part of a history holds no tool result without its call.
pub proof fn law_legal_suffix_answers_tool_results(msgs: Seq<MessageView>)
    ensures
        tool_results_answered(legal_suffix(msgs)),
{
    let n = msgs.len() as int;
    lemma_legal_start_range(msgs, n);
    let s = legal_start(msgs, n);
    let h = msgs.skip(s);
    assert forall|i: int| 0 <= i < h.len() implies !orphan(#[trigger] h[i], declared_ids(h, 0, i)) by {
        lemma_declared_shift(msgs, s, i);
        assert(h[i] == msgs[s + i]);
    }
}

/// The history handed to the model holds no tool result without its call.
pub proof fn law_history_answers_tool_results(msgs: Seq<MessageView>, last_consolidated: int, max_messages: int)
    ensures
        tool_results_answered(history_of(msgs, last_consolidated, max_messages)),
{
    let unconsolidated = if last_consolidated >= msgs.len() {
        Seq::<MessageView>::empty()
    } else {
        msgs.skip(last_consolidated)
    };
    let sliced = if max_messages > 0 && unconsolidated.len() > max_messages {
        unconsolidated.skip(unconsolidated.len() - max_messages)
    } else {
        unconsolidated
    };
    law_legal_suffix_answers_tool_results(crate::session::from_first_user(sliced));
}

proof fn lemma_first_user_range(s: Seq<MessageView>)
    ensures
        crate::session::first_user(s) matches Some(i) ==> 0 <= i < s.len(),
    decreases s.len(),
{
    if s.len() > 0 {
        lemma_first_user_range(s.drop_last());
    }
}

/// The history handed to the model holds at most `max_messages` messages when that
/// bound is set.
pub proof fn law_history_bounded(msgs: Seq<MessageView>, last_consolidated: int, max_messages: int)
    requires
        max_messages > 0,
    ensures
        history_of(msgs, last_consolidated, max_messages).len() <= max_messages,
{
    let unconsolidated = if last_consolidated >= msgs.len() {
        Seq::<MessageView>::empty()
    } else {
        msgs.skip(last_consolidated)
    };
    let sliced = if max_messages > 0 && unconsolidated.len() > max_messages {
        unconsolidated.skip(unconsolidated.len() - max_messages)
    } else {
        unconsolidated
    };
    let f = crate::session::from_first_user(sliced);
    lemma_first_user_range(sliced);
    lemma_legal_start_range(f, f.len() as int);
    assert(f.len() <= sliced.len());
}

/// What trimming a session keeps holds no tool result without its call.
pub proof fn law_retained_answers_tool_results(msgs: Seq<MessageView>, max_messages: int)
    ensures
        tool_results_answered(retained_suffix(msgs, max_messages)),
{
    let start = msgs.len() - max_messages;
    let actual = crate::session::back_to_user(msgs, start);
    let kept = if actual > 0 {
        msgs.skip(actual)
    } else {
        msgs.skip(start)
    };
    law_legal_suffix_answers_tool_results(kept);
}

/// A command listing names every command once, in strictly ascending order.
pub proof fn law_listing_sorted_unique(descs: Map<Seq<char>, Seq<char>>, l: Seq<(Seq<char>, Seq<char>)>)
    requires
        lists_commands(descs, l),
    ensures
        forall|i: int, j: int| 0 <= i < j < l.len() ==> l[i].0 != l[j].0,
{
    assert forall|i: int, j: int| 0 <= i < j < l.len() implies l[i].0 != l[j].0 by {
        assert(crate::text::lex_lt(l[i].0, l[j].0));
        crate::text::lemma_lex_irreflexive(l[i].0);
    }
}

/// Replacing a text that does not occur changes nothing.
pub proof fn law_replace_absent_is_identity(s: Seq<char>, p: Seq<char>, t: Seq<char>)
    requires
        p.len() > 0,
        forall|j: int| !#[trigger] occurs_at(s, p, j),
    ensures
        replace_seq(s, p, t) == s,
    decreases s.len(),
{
    if s.len() >= p.len() {
        assert(!occurs_at(s, p, 0));
        assert(s.subrange(0, p.len() as int) =~= s.take(p.len() as int));
        assert forall|j: int| !#[trigger] occurs_at(s.drop_first(), p, j) by {
            if occurs_at(s.drop_first(), p, j) {
                assert(s.drop_first().subrange(j, j + p.len()) =~= s.subrange(j + 1, j + 1 + p.len()));
                assert(occurs_at(s, p, j + 1));
            }
        }
        law_replace_absent_is_identity(s.drop_first(), p, t);
        assert(s =~= seq![s[0]] + s.drop_first());
    }
}

/// A text that does not occur is counted zero times.
pub proof fn law_count_absent_is_zero(s: Seq<char>, p: Seq<char>)
    requires
        p.len() > 0,
        forall|j: int| !#[trigger] occurs_at(s, p, j),
    ensures
        count_matches(s, p) == 0,
    decreases s.len(),
{
    if s.len() >= p.len() {
        assert(!occurs_at(s, p, 0));
        assert(s.subrange(0, p.len() as int) =~= s.take(p.len() as int));
        assert forall|j: int| !#[trigger] occurs_at(s.drop_first(), p, j) by {
            if occurs_at(s.drop_first(), p, j) {
                assert(s.drop_first().subrange(j, j + p.len()) =~= s.subrange(j + 1, j + 1 + p.len()));
                assert(occurs_at(s, p, j + 1));
            }
        }
        law_count_absent_is_zero(s.drop_first(), p);
    }
}

/// A page of a file holds at most `limit` lines.
pub proof fn law_page_within_limit(lines: Seq<Seq<char>>, start: int, limit: u64)
    requires
        0 <= start <= lines.len(),
    ensures
        page_lines(lines, start, crate::fs_tools::page_end(start, limit, lines.len() as int)).len() <= limit,
{
}

/// After an effect's result is recorded, the next call of the lambda finds it under
/// the step that waited for it.
pub proof fn law_recorded_effect_is_replayed(
    store: Map<Seq<char>, Map<Seq<char>, Seq<u8>>>,
    execution_id: Seq<char>,
    step_id: Seq<char>,
    result: Seq<u8>,
)
    ensures
        namespace(store.insert(execution_id, namespace(store, execution_id).insert(step_id, result)), execution_id)[step_id]
            == result,
{
}

/// A finished execution leaves no history behind.
pub proof fn law_finished_execution_forgets(store: Map<Seq<char>, Map<Seq<char>, Seq<u8>>>, execution_id: Seq<char>)
    ensures
        namespace(store.remove(execution_id), execution_id) == Map::<Seq<char>, Seq<u8>>::empty(),
{
}

/// Ordering sessions by update time keeps their number.
pub proof fn law_newest_first_keeps_count(v: Seq<SessionInfo>)
    ensures
        newest_first(v).len() == v.len(),
{
    crate::session::lemma_tags_sort_len(v);
}

/// In the ordered listing no session comes after one updated later.
pub proof fn law_newest_first_ordered(v: Seq<SessionInfo>)
    ensures
        forall|i: int, j: int|
            0 <= i < j < newest_first(v).len() ==> !crate::session::later(
                crate::session::opt_str(#[trigger] newest_first(v)[j].updated_at),
                crate::session::opt_str(#[trigger] newest_first(v)[i].updated_at),
            ),
{
    crate::session::lemma_newest_first_ordered(v);
}

/// After a poll that brought a cursor, the channel's next poll resumes from that
/// cursor, and no other channel's cursor moves.
pub proof fn law_poll_resumes_from_last_cursor(
    cursors: Map<Seq<char>, String>,
    channel: Seq<char>,
    other: Seq<char>,
    buf: String,
)
    requires
        other != channel,
    ensures
        buf@.len() > 0 ==> poll_cursor(cursors.insert(channel, buf), channel) == buf@,
        buf@.len() > 0 ==> poll_cursor(cursors.insert(channel, buf), other) == poll_cursor(cursors, other),
{
}

/// A turn asks the model at most `max` times; when every answer asks for tools it
/// ends by giving up, after exactly `max` calls.
pub proof fn law_turn_bounded(max: nat, replies: spec_fn(nat) -> ChatResponse)
    ensures
        turn_run(max, 0, replies).0 <= max,
        (forall|i: nat| #[trigger] replies(i).error is None && replies(i).tool_calls@.len() > 0) ==> turn_run(
            max,
            0,
            replies,
        ) == (max, TurnEnd::GaveUp),
{
    lemma_turn_run(max, 0, replies);
}

proof fn lemma_turn_run(max: nat, done: nat, replies: spec_fn(nat) -> ChatResponse)
    requires
        done <= max,
    ensures
        done <= turn_run(max, done, replies).0 <= max,
        (forall|i: nat| #[trigger] replies(i).error is None && replies(i).tool_calls@.len() > 0) ==> turn_run(
            max,
            done,
            replies,
        ) == (max, TurnEnd::GaveUp),
    decreases max - done,
{
    if done < max {
        lemma_turn_run(max, (done + 1) as nat, replies);
        if forall|i: nat| #[trigger] replies(i).error is None && replies(i).tool_calls@.len() > 0 {
            assert(replies(done).error is None && replies(done).tool_calls@.len() > 0);
        }
    }
}

/// A message routed to `/help`, `/clear` or a command that answered asks the model
/// nothing.
pub proof fn law_commands_ask_no_model(route: CommandRoute, max: nat, replies: spec_fn(nat) -> ChatResponse)
    requires
        !(route is PassThrough),
    ensures
        message_model_calls(route, max, replies) == 0,
{
}

/// Reading a non-empty UTF-8 text file (not an image) from line `offset` (0 read as
/// 1) answers, when that line is past the end, the offset error; otherwise the page
/// of the lines from that one up to `limit` lines or the end, each numbered by its
/// line, then the note that says the file ended, or where to go on.
pub proof fn law_read_page(display: Seq<char>, b: Vec<u8>, offset: u64, limit: u64)
    requires
        b@.len() > 0,
        magic_mime(b@) is None,
        valid_utf8(b@),
    ensures
        ({
            let lines = split_char(decode_utf8(b@), '\n');
            let total = lines.len() as int;
            let o = first_line(offset);
            let out = read_output(display, FileRead::Bytes(b), offset, limit);
            &&& o > total ==> out == "Error: offset "@ + decimal(o as nat) + " is beyond end of file ("@ + decimal(
                total as nat,
            ) + " lines)"@
            &&& o <= total ==> {
                let end = if o - 1 + limit < total {
                    o - 1 + limit
                } else {
                    total
                };
                let shown = page_lines(lines, o - 1, end);
                &&& out == page_body(shown) + page_note(o, end, total)
                &&& shown.len() == end - (o - 1)
                &&& forall|j: int| 0 <= j < shown.len() ==> #[trigger] shown[j] == page_line(o - 1 + j, lines[o - 1 + j])
                &&& end == total ==> page_note(o, end, total) == "\n\n(End of file — "@ + decimal(total as nat)
                    + " lines total)"@
                &&& end < total ==> page_note(o, end, total) == "\n\n(Showing lines "@ + decimal(o as nat) + "-"@
                    + decimal(end as nat) + " of "@ + decimal(total as nat) + ". Use offset="@ + decimal(
                    (end + 1) as nat,
                ) + " to continue.)"@
            }
        }),
{
}

/// A flat listing of a directory with entries `v`: the entries that are not ignored
/// names, ordered by path, are `e`; with none the directory is reported empty,
/// otherwise the first `m` of them (200 when `max_entries` is 0) are listed one per
/// line, directories with a trailing `/`, and a note follows when more were found.
pub proof fn law_flat_listing(display: Seq<char>, v: Vec<ListedEntry>, max_entries: u64)
    ensures
        ({
            let e = unignored(entry_keys(v@).sort_by(entry_order()));
            let m: int = if max_entries == 0 {
                200
            } else {
                max_entries as int
            };
            let out = list_output(display, DirListing::Entries(v), false, max_entries);
            &&& m > 0
            &&& e.len() == 0 ==> out == "Directory "@ + display + " is empty"@
            &&& 0 < e.len() <= m ==> out == join_seq(
                e.map_values(|k: (Seq<Seq<char>>, bool)| entry_item(k)),
                "\n"@,
            )
            &&& e.len() > m ==> out == join_seq(
                e.take(m).map_values(|k: (Seq<Seq<char>>, bool)| entry_item(k)),
                "\n"@,
            ) + "\n\n(truncated, showing first "@ + decimal(m as nat) + " of "@ + decimal(e.len()) + " entries)"@
        }),
{
    let e = unignored(entry_keys(v@).sort_by(entry_order()));
    assert(e.take(e.len() as int) =~= e);
}

/// With a workspace and a path that both canonicalized inside the root, resolving
/// for reading gives exactly the path's canonical form.
pub proof fn law_read_resolution_is_the_answer(root: Seq<Part>, w: Seq<Part>, q: Seq<Part>)
    requires
        has_prefix(w, root),
        has_prefix(q, root),
    ensures
        read_resolution(root, Ok(w), Ok(q)) == Ok::<Seq<Part>, Seq<char>>(q),
{
}

proof fn lemma_skip_subrange(msgs: Seq<MessageView>, k: int, j: int)
    requires
        0 <= k <= msgs.len(),
        0 <= j <= msgs.len() - k,
    ensures
        msgs.subrange(k, msgs.len() as int).skip(j) == msgs.subrange(k + j, msgs.len() as int),
{
    assert(msgs.subrange(k, msgs.len() as int).skip(j) =~= msgs.subrange(k + j, msgs.len() as int));
}

/// The history handed to the model is a tail of the session's messages that starts
/// no earlier than the first unconsolidated one: no consolidated message is handed
/// to the model again, and the messages come in the session's order.
#[verifier::rlimit(50)]
pub proof fn law_history_skips_consolidated(msgs: Seq<MessageView>, last_consolidated: int, max_messages: int)
    requires
        0 <= last_consolidated,
    ensures
        exists|k: int|
            #![trigger msgs.subrange(k, msgs.len() as int)]
            0 <= k <= msgs.len() && (k >= last_consolidated || k == msgs.len()) && history_of(
                msgs,
                last_consolidated,
                max_messages,
            ) == msgs.subrange(k, msgs.len() as int),
{
    let n = msgs.len() as int;
    let k0 = if last_consolidated >= n {
        n
    } else {
        last_consolidated
    };
    let unconsolidated = if last_consolidated >= n {
        Seq::<MessageView>::empty()
    } else {
        msgs.skip(last_consolidated)
    };
    assert(unconsolidated == msgs.subrange(k0, n)) by {
        assert(unconsolidated =~= msgs.subrange(k0, n));
    }
    let big = max_messages > 0 && unconsolidated.len() > max_messages;
    let k1 = if big {
        n - max_messages
    } else {
        k0
    };
    let sliced = if big {
        unconsolidated.skip(unconsolidated.len() - max_messages)
    } else {
        unconsolidated
    };
    assert(sliced == msgs.subrange(k1, n)) by {
        if big {
            lemma_skip_subrange(msgs, k0, unconsolidated.len() - max_messages);
        }
    }
    lemma_first_user_range(sliced);
    let k2 = match crate::session::first_user(sliced) {
        Some(i) => k1 + i,
        None => k1,
    };
    let fu = crate::session::from_first_user(sliced);
    assert(fu == msgs.subrange(k2, n)) by {
        if let Some(i) = crate::session::first_user(sliced) {
            lemma_skip_subrange(msgs, k1, i);
        }
    }
    lemma_legal_start_range(fu, fu.len() as int);
    let k3 = k2 + legal_start(fu, fu.len() as int);
    assert(legal_suffix(fu) == msgs.subrange(k3, n)) by {
        lemma_skip_subrange(msgs, k2, legal_start(fu, fu.len() as int));
    }
    assert(history_of(msgs, last_consolidated, max_messages) == legal_suffix(fu));
    assert(0 <= k3 <= n && (k3 >= last_consolidated || k3 == n));
}

/// The messages of a model call are the system prompt, then every history message
/// unchanged and in its order, then the current message in the given role; without
/// images its content is the runtime context, a blank line and the text.
pub proof fn law_turn_keeps_history(
    ws: Seq<char>,
    now: Seq<char>,
    src: PromptSources,
    history: Seq<MessageView>,
    text: Seq<char>,
    media: Seq<MediaFile>,
    channel: Option<Seq<char>>,
    chat_id: Option<Seq<char>>,
    role: Seq<char>,
)
    ensures
        ({
            let r = turn_messages(ws, now, src, history, text, media, channel, chat_id, role);
            &&& r.len() == history.len() + 2
            &&& r[0].role == "system"@
            &&& forall|i: int| 0 <= i < history.len() ==> #[trigger] r[i + 1] == history[i]
            &&& r[history.len() as int + 1].role == role
            &&& image_urls(media).len() == 0 ==> r[history.len() as int + 1].content == runtime_context(now, channel, chat_id)
                + "\n\n"@ + text
        }),
{
}

/// With at least one tool, the chat body is the body without tools, its closing brace
/// replaced by a `tools` array that holds every tool's JSON, in order.
pub proof fn law_chat_body_offers_every_tool(
    model: Seq<char>,
    messages: Seq<ChatMessage>,
    tools: Seq<ToolDef>,
    max_tokens: u32,
    temperature: Seq<char>,
)
    requires
        tools.len() > 0,
    ensures
        chat_body(model, messages, tools, max_tokens, temperature) == chat_body(
            model,
            messages,
            Seq::empty(),
            max_tokens,
            temperature,
        ).drop_last() + ",\"tools\":["@ + join_seq(tools.map_values(|t: ToolDef| tool_json(t)), ","@) + "]}"@,
{
    let base = chat_body(model, messages, Seq::empty(), max_tokens, temperature);
    let pre = "{\"max_tokens\":"@ + decimal(max_tokens as nat) + ",\"messages\":["@ + join_seq(
        messages.map_values(|m: ChatMessage| message_json(m)),
        ","@,
    ) + "],\"model\":"@ + spec_json_string(model) + ",\"temperature\":"@ + temperature;
    let tj = ",\"tools\":["@ + join_seq(tools.map_values(|t: ToolDef| tool_json(t)), ","@) + "]"@;
    reveal_strlit("}");
    reveal_strlit("]");
    reveal_strlit("]}");
    assert(base == pre + Seq::<char>::empty() + "}"@);
    assert(base.drop_last() =~= pre);
    assert(chat_body(model, messages, tools, max_tokens, temperature) == pre + tj + "}"@);
    assert(tj + "}"@ =~= ",\"tools\":["@ + join_seq(tools.map_values(|t: ToolDef| tool_json(t)), ","@) + "]}"@);
    assert(pre + tj + "}"@ =~= pre + (",\"tools\":["@ + join_seq(tools.map_values(|t: ToolDef| tool_json(t)), ","@)
        + "]}"@));
}

/// A recursive listing shows, of the entries ordered by path, at most `m` (200 when
/// `max_entries` is 0), one per line with directories marked by `/`, and says when
/// more were found; with none it reports the directory empty.
pub proof fn law_recursive_listing(display: Seq<char>, v: Vec<ListedEntry>, max_entries: u64)
    ensures
        ({
            let e = entry_keys(v@).sort_by(entry_order());
            let m: int = if max_entries == 0 {
                200
            } else {
                max_entries as int
            };
            let out = list_output(display, DirListing::Entries(v), true, max_entries);
            &&& e.len() == 0 ==> out == "Directory "@ + display + " is empty"@
            &&& 0 < e.len() <= m ==> out == join_seq(
                e.map_values(|k: (Seq<Seq<char>>, bool)| entry_item(k)),
                "\n"@,
            )
            &&& e.len() > m ==> out == join_seq(
                e.take(m).map_values(|k: (Seq<Seq<char>>, bool)| entry_item(k)),
                "\n"@,
            ) + "\n\n(truncated, showing first "@ + decimal(m as nat) + " of "@ + decimal(e.len()) + " entries)"@
        }),
{
    let e = entry_keys(v@).sort_by(entry_order());
    assert(e.take(e.len() as int) =~= e);
}

/// A non-empty relative workspace lies under the root: its candidate is the root
/// followed by the workspace's components (a leading `.` dropped); and a relative
/// request path then lies under that.
pub proof fn law_relative_workspace_under_root(root: Seq<Part>, w: Seq<Part>, p: Seq<Part>)
    requires
        root.len() > 0,
        w.len() > 0,
        !is_abs(w),
    ensures
        ({
            let c = workspace_candidate(root, w);
            let wn = if w[0] == Part::Cur {
                w.drop_first()
            } else {
                w
            };
            &&& c == root + wn
            &&& p.len() > 0 && !is_abs(p) && p[0] != Part::Cur ==> path_candidate(c, p) == root + wn + p
        }),
{
}

proof fn lemma_back_to_user_range(msgs: Seq<MessageView>, k: int)
    requires
        k < msgs.len(),
    ensures
        0 <= crate::session::back_to_user(msgs, k) <= if k < 0 {
            0
        } else {
            k
        },
    decreases k,
{
    if k > 0 {
        lemma_back_to_user_range(msgs, k - 1);
    }
}

/// Trimming a session keeps a tail of its messages, in their order: nothing is
/// invented or reordered.
pub proof fn law_retained_is_tail(msgs: Seq<MessageView>, max_messages: int)
    requires
        0 < max_messages < msgs.len(),
    ensures
        exists|k: int|
            #![trigger msgs.subrange(k, msgs.len() as int)]
            0 <= k <= msgs.len() && retained_suffix(msgs, max_messages) == msgs.subrange(k, msgs.len() as int),
{
    let n = msgs.len() as int;
    let start = n - max_messages;
    lemma_back_to_user_range(msgs, start);
    let actual = crate::session::back_to_user(msgs, start);
    let k0 = if actual > 0 {
        actual
    } else {
        start
    };
    let kept = if actual > 0 {
        msgs.skip(actual)
    } else {
        msgs.skip(start)
    };
    assert(kept == msgs.subrange(k0, n)) by {
        assert(kept =~= msgs.subrange(k0, n));
    }
    lemma_legal_start_range(kept, kept.len() as int);
    let k1 = k0 + legal_start(kept, kept.len() as int);
    assert(legal_suffix(kept) == msgs.subrange(k1, n)) by {
        lemma_skip_subrange(msgs, k0, legal_start(kept, kept.len() as int));
    }
    assert(retained_suffix(msgs, max_messages) == legal_suffix(kept));
}

} // verus!
