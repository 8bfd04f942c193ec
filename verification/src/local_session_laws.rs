//! What the discovery of local sessions is for: which sessions are found, what
//! they are called, and which one a request picks.

use vstd::prelude::*;

use crate::json::{find_member, member, tree_text, Tree};
use crate::local_sessions::{
    datetime_of, discovered, hints_of, lemma_discovered_in_order, line_values, list_limit,
    message_text_of, meta_of, named_text, picked, picked_text, provider_label, provider_of,
    resolved_session, resume_answer, resume_command_of, resume_store, rfc3339_millis, selected,
    session_id_like, session_lines, session_list_text, session_of, sessions_of, timestamp_of,
    title_of, utc_text, with_id, with_id_prefix, HintView, LocalSessionView, ProviderKind,
    ResumeView, SessionFileView, MAX_DISCOVERED_FILES, MAX_INDEX_SCAN_BYTES, MAX_LINE_BYTES,
    MAX_SESSION_SCAN_BYTES,
};
use crate::map::text_less;
use crate::session_state::{slot, state_key_of, StoreView};
use crate::text::{
    byte_len, decimal, has_prefix, has_text, joined, lowered, occurs_at, trimmed, words,
};

verus! {

broadcast use vstd::string::group_string_axioms;

// ---------------------------------------------------------------------------
// Titles
// ---------------------------------------------------------------------------

/// Whether a line of Codex or Traex is a message of the user with some text.
pub open spec fn user_says(v: Tree, text: Seq<char>) -> bool {
    &&& member(v, "payload"@) matches Some(p)
    &&& member(p, "type"@) == Some(Tree::Text("message"@))
    &&& member(p, "role"@) == Some(Tree::Text("user"@))
    &&& member(p, "content"@) matches Some(c)
    &&& message_text_of(c) == Some(text)
}

/// Whether a line of `claude_code` is a message of the user with some text.
pub open spec fn user_types(v: Tree, text: Seq<char>) -> bool {
    &&& member(v, "type"@) == Some(Tree::Text("user"@))
    &&& member(v, "message"@) matches Some(c)
    &&& message_text_of(c) == Some(text)
}

/// Whether a line gives the text of a message of the user, for an agent.
pub open spec fn user_message(kind: ProviderKind, v: Tree, text: Seq<char>) -> bool {
    match kind {
        ProviderKind::ClaudeCode => user_types(v, text),
        _ => user_says(v, text),
    }
}

/// What a session is called in its file is the first message of the user that
/// holds text. Messages of any other role never give the title.
pub proof fn lemma_first_user_message_is_the_title(
    kind: ProviderKind,
    values: Seq<Tree>,
    i: int,
    text: Seq<char>,
)
    requires
        0 <= i < values.len(),
        user_message(kind, values[i], text),
        forall|j: int, t: Seq<char>|
            0 <= j < i ==> !#[trigger] user_message(kind, values[j], t),
    ensures
        meta_of(kind, values).title == Some(text),
    decreases values.len(),
{
    let rest = values.drop_last();
    let v = values.last();
    if i < rest.len() {
        assert(rest[i] == values[i]);
        assert forall|j: int, t: Seq<char>| 0 <= j < i implies !#[trigger] user_message(
            kind,
            rest[j],
            t,
        ) by {
            assert(rest[j] == values[j]);
        }
        lemma_first_user_message_is_the_title(kind, rest, i, text);
    } else {
        assert forall|j: int, t: Seq<char>| 0 <= j < rest.len() implies !#[trigger] user_message(
            kind,
            rest[j],
            t,
        ) by {
            assert(rest[j] == values[j]);
        }
        lemma_no_user_message_no_title(kind, rest);
        assert(v == values[i]);
    }
}

/// Without a message of the user that holds text, a file gives no title.
pub proof fn lemma_no_user_message_no_title(kind: ProviderKind, values: Seq<Tree>)
    requires
        forall|j: int, t: Seq<char>|
            0 <= j < values.len() ==> !#[trigger] user_message(kind, values[j], t),
    ensures
        meta_of(kind, values).title is None,
    decreases values.len(),
{
    if values.len() > 0 {
        let rest = values.drop_last();
        let v = values.last();
        assert forall|j: int, t: Seq<char>| 0 <= j < rest.len() implies !#[trigger] user_message(
            kind,
            rest[j],
            t,
        ) by {
            assert(rest[j] == values[j]);
        }
        lemma_no_user_message_no_title(kind, rest);
        assert(v == values[values.len() - 1]);
        assert forall|t: Seq<char>| !#[trigger] user_message(kind, v, t) by {}
        match kind {
            ProviderKind::ClaudeCode => {
                if member(v, "message"@) is Some {
                    let c = member(v, "message"@)->Some_0;
                    if message_text_of(c) is Some {
                        assert(!user_message(kind, v, message_text_of(c)->Some_0));
                    }
                }
            },
            _ => {
                if member(v, "payload"@) is Some {
                    let p = member(v, "payload"@)->Some_0;
                    if member(p, "content"@) is Some {
                        let c = member(p, "content"@)->Some_0;
                        if message_text_of(c) is Some {
                            assert(!user_message(kind, v, message_text_of(c)->Some_0));
                        }
                    }
                }
            },
        }
    }
}

/// Lines that say nothing of a generated title leave none.
proof fn lemma_no_generated_title(kind: ProviderKind, values: Seq<Tree>)
    requires
        kind is ClaudeCode ==> forall|j: int|
            0 <= j < values.len() ==> member(#[trigger] values[j], "type"@) != Some(
                Tree::Text("ai-title"@),
            ),
    ensures
        meta_of(kind, values).ai_title is None,
    decreases values.len(),
{
    if values.len() > 0 {
        let rest = values.drop_last();
        assert forall|j: int| 0 <= j < rest.len() implies #[trigger] rest[j] == values[j] by {}
        assert(values[values.len() - 1] == values.last());
        lemma_no_generated_title(kind, rest);
    }
}

/// A session that neither the index nor a generated title names is shown under
/// the first message of its user.
pub proof fn lemma_sessions_are_called_by_their_user(
    kind: ProviderKind,
    f: SessionFileView,
    hints: Map<Seq<char>, HintView>,
    i: int,
    text: Seq<char>,
)
    requires
        0 <= i < line_values(f.lines).len(),
        user_message(kind, line_values(f.lines)[i], text),
        forall|j: int, t: Seq<char>|
            0 <= j < i ==> !#[trigger] user_message(kind, line_values(f.lines)[j], t),
        kind is ClaudeCode ==> forall|j: int|
            0 <= j < line_values(f.lines).len() ==> member(
                #[trigger] line_values(f.lines)[j],
                "type"@,
            ) != Some(Tree::Text("ai-title"@)),
    ensures
        session_of(kind, f, hints) matches Some(s) ==> ((!hints.contains_key(s.id)
            || hints[s.id].title is None) ==> s.title == title_of(text)),
{
    lemma_first_user_message_is_the_title(kind, line_values(f.lines), i, text);
    lemma_no_generated_title(kind, line_values(f.lines));
}

/// A title that the index gives goes before what the file says.
pub proof fn lemma_indexed_titles_go_first(
    kind: ProviderKind,
    f: SessionFileView,
    hints: Map<Seq<char>, HintView>,
)
    requires
        !(kind is ClaudeCode),
    ensures
        session_of(kind, f, hints) matches Some(s) ==> (hints.contains_key(s.id) ==> (
        hints[s.id].title matches Some(t) ==> s.title == title_of(t))),
{
    lemma_no_generated_title(kind, line_values(f.lines));
}

/// A title that was generated for a session of `claude_code` goes before all
/// others: the last one that its file holds.
pub proof fn lemma_generated_titles_go_first(
    f: SessionFileView,
    hints: Map<Seq<char>, HintView>,
    text: Seq<char>,
)
    requires
        line_values(f.lines).len() > 0,
        member(line_values(f.lines).last(), "type"@) == Some(Tree::Text("ai-title"@)),
        member(line_values(f.lines).last(), "aiTitle"@) == Some(Tree::Text(text)),
        trimmed(text).len() > 0,
    ensures
        session_of(ProviderKind::ClaudeCode, f, hints) matches Some(s) ==> s.title == title_of(
            trimmed(text),
        ),
{
}

/// A title is the words of its text with one blank between any two of them; one
/// that is too long is cut, and one without words is none.
pub proof fn lemma_titles_are_words(value: Seq<char>)
    ensures
        joined(words(value), " "@).len() == 0 ==> title_of(value) == "Untitled session"@,
        0 < joined(words(value), " "@).len() <= 96 ==> title_of(value) == joined(
            words(value),
            " "@,
        ),
        joined(words(value), " "@).len() > 96 ==> title_of(value) == joined(
            words(value),
            " "@,
        ).take(96) + "…"@,
{
}

/// The text of a message is what it says: plain text itself, the text of an
/// object under `text`, and of a list the first part that holds text. Blank text
/// is none.
pub proof fn lemma_texts_of_messages(s: Seq<char>, m: Seq<(Seq<char>, Tree)>, items: Seq<Tree>)
    ensures
        trimmed(s).len() > 0 ==> message_text_of(Tree::Text(s)) == Some(trimmed(s)),
        trimmed(s).len() == 0 ==> message_text_of(Tree::Text(s)) is None,
        find_member(m, "text"@) == Some(Tree::Text(s)) && trimmed(s).len() > 0 ==> message_text_of(
            Tree::Object(m),
        ) == Some(trimmed(s)),
        find_member(m, "text"@) is None && find_member(m, "content"@) == Some(Tree::Text(s))
            && trimmed(s).len() > 0 ==> message_text_of(Tree::Object(m)) == Some(trimmed(s)),
        items.len() > 0 && member(items[0], "text"@) == Some(Tree::Text(s)) && trimmed(s).len() > 0
            ==> message_text_of(Tree::List(items)) == Some(trimmed(s)),
        items.len() > 0 && items[0] == Tree::Text(s) && trimmed(s).len() > 0 ==> message_text_of(
            Tree::List(items),
        ) == Some(trimmed(s)),
        items.len() > 0 && tree_text(Some(items[0])) is None && named_text(items[0], "text"@) is None
            && named_text(items[0], "content"@) is None ==> message_text_of(Tree::List(items))
            == message_text_of(Tree::List(items.drop_first())),
        message_text_of(Tree::Null) is None,
{
}

// ---------------------------------------------------------------------------
// Identifiers and times
// ---------------------------------------------------------------------------

/// A session of Codex or Traex has the identifier that the last line about the
/// session gives, and none where no line is about it.
pub proof fn lemma_codex_sessions_are_named_by_their_file(
    kind: ProviderKind,
    values: Seq<Tree>,
    v: Tree,
)
    requires
        !(kind is ClaudeCode),
    ensures
        member(v, "type"@) != Some(Tree::Text("session_meta"@)) ==> meta_of(
            kind,
            values.push(v),
        ).id == meta_of(kind, values).id,
        member(v, "type"@) == Some(Tree::Text("session_meta"@)) ==> (member(v, "payload"@) matches Some(
            p,
        ) ==> (member(p, "session_id"@) is None ==> (member(p, "id"@) matches Some(Tree::Text(id))
            ==> (trimmed(id).len() > 0 ==> meta_of(kind, values.push(v)).id == Some(
            trimmed(id),
        ))))),
        member(v, "type"@) == Some(Tree::Text("session_meta"@)) ==> (member(v, "payload"@) matches Some(
            p,
        ) ==> (member(p, "session_id"@) matches Some(Tree::Text(id)) ==> (trimmed(id).len() > 0
            ==> meta_of(kind, values.push(v)).id == Some(trimmed(id))))),
        meta_of(kind, Seq::<Tree>::empty()).id is None,
{
    assert(values.push(v).drop_last() =~= values);
}

/// A session of `claude_code` has the first identifier that its file gives.
pub proof fn lemma_claude_sessions_are_named_by_their_first_line(values: Seq<Tree>, v: Tree)
    ensures
        meta_of(ProviderKind::ClaudeCode, values).id is Some ==> meta_of(
            ProviderKind::ClaudeCode,
            values.push(v),
        ).id == meta_of(ProviderKind::ClaudeCode, values).id,
        meta_of(ProviderKind::ClaudeCode, values).id is None ==> (member(v, "sessionId"@) matches Some(
            Tree::Text(id),
        ) ==> (trimmed(id).len() > 0 ==> meta_of(ProviderKind::ClaudeCode, values.push(v)).id
            == Some(trimmed(id)))),
{
    assert(values.push(v).drop_last() =~= values);
}

/// Without an identifier in its file, a session of `claude_code` is named by the
/// file and one of another agent is left out.
pub proof fn lemma_files_without_identifiers(
    kind: ProviderKind,
    f: SessionFileView,
    hints: Map<Seq<char>, HintView>,
)
    requires
        meta_of(kind, line_values(f.lines)).id is None,
    ensures
        !(kind is ClaudeCode) ==> session_of(kind, f, hints) is None,
        kind is ClaudeCode ==> (f.stem matches Some(stem) ==> (session_of(kind, f, hints) matches Some(
            s,
        ) && s.id == stem)),
        kind is ClaudeCode && f.stem is None ==> session_of(kind, f, hints) is None,
{
}

/// A file that names its session is found under that name.
pub proof fn lemma_named_files_are_sessions(
    kind: ProviderKind,
    f: SessionFileView,
    hints: Map<Seq<char>, HintView>,
)
    ensures
        meta_of(kind, line_values(f.lines)).id matches Some(id) ==> (session_of(kind, f, hints) matches Some(
            s,
        ) && s.id == id),
{
}

/// A session is as new as the newest of its file, its lines and the index.
pub proof fn lemma_sessions_are_as_new_as_their_newest_sign(
    kind: ProviderKind,
    f: SessionFileView,
    hints: Map<Seq<char>, HintView>,
)
    ensures
        session_of(kind, f, hints) matches Some(s) ==> {
            let meta = meta_of(kind, line_values(f.lines)).updated_at_millis;
            let hint = if hints.contains_key(s.id) {
                hints[s.id].updated_at_millis
            } else {
                0
            };
            &&& s.updated_at_millis >= f.modified_millis
            &&& s.updated_at_millis >= meta
            &&& s.updated_at_millis >= hint
            &&& s.updated_at_millis == f.modified_millis || s.updated_at_millis == meta
                || s.updated_at_millis == hint
        },
{
}

/// A line that bears a time makes its file at least that new, and no line makes
/// it older.
pub proof fn lemma_lines_bear_times(kind: ProviderKind, values: Seq<Tree>, v: Tree)
    ensures
        meta_of(kind, values.push(v)).updated_at_millis >= meta_of(kind, values).updated_at_millis,
        meta_of(kind, values.push(v)).updated_at_millis >= timestamp_of(member(v, "timestamp"@)),
{
    assert(values.push(v).drop_last() =~= values);
}

/// A time that is a number counts seconds where it is small and milliseconds
/// else.
pub proof fn lemma_times_of_numbers(n: u64)
    ensures
        n < 10_000_000_000 ==> timestamp_of(Some(Tree::Unsigned(n))) == n * 1000,
        n >= 10_000_000_000 ==> timestamp_of(Some(Tree::Unsigned(n))) == n,
        timestamp_of(None) == 0,
        timestamp_of(Some(Tree::Null)) == 0,
{
    if n < 10_000_000_000 {
        assert(n * 1000 <= u64::MAX);
    }
}

/// Lines that are no JSON or too long are passed over; all others are read, in
/// their order.
pub proof fn lemma_readable_lines_are_read(lines: Seq<Seq<char>>, line: Seq<char>)
    ensures
        line_values(Seq::<Seq<char>>::empty()) == Seq::<Tree>::empty(),
        crate::json::json_of_text(line) matches Some(t) ==> (byte_len(line) <= MAX_LINE_BYTES
            ==> line_values(lines.push(line)) == line_values(lines).push(t)),
        crate::json::json_of_text(line) is None || byte_len(line) > MAX_LINE_BYTES ==> line_values(
            lines.push(line),
        ) == line_values(lines),
{
    assert(lines.push(line).drop_last() =~= lines);
}

// ---------------------------------------------------------------------------
// The index
// ---------------------------------------------------------------------------

/// A line of the index of Codex that is at least as new as what is known of its
/// session brings its name and its time; an older one changes nothing.
pub proof fn lemma_newer_index_lines_win(
    values: Seq<Tree>,
    v: Tree,
    id: Seq<char>,
    name: Seq<char>,
)
    requires
        member(v, "id"@) == Some(Tree::Text(id)),
        member(v, "thread_name"@) == Some(Tree::Text(name)),
        trimmed(id).len() > 0,
        trimmed(name).len() > 0,
    ensures
        ({
            let before = hints_of(ProviderKind::Codex, values);
            let after = hints_of(ProviderKind::Codex, values.push(v));
            let k = trimmed(id);
            let time = timestamp_of(member(v, "updated_at"@));
            &&& after.contains_key(k)
            &&& !before.contains_key(k) || time >= before[k].updated_at_millis ==> after[k].title
                == Some(title_of(trimmed(name))) && after[k].updated_at_millis == time
            &&& before.contains_key(k) && time < before[k].updated_at_millis ==> after[k]
                == before[k]
            &&& forall|o: Seq<char>| o != k ==> after.contains_key(o) == #[trigger] before.contains_key(
                o,
            ) && after[o] == before[o]
        }),
{
    assert(values.push(v).drop_last() =~= values);
}

/// Of the prompts in a history, the first one of a session names it.
pub proof fn lemma_first_prompt_names_a_session(
    kind: ProviderKind,
    values: Seq<Tree>,
    v: Tree,
    id: Seq<char>,
    text: Seq<char>,
)
    requires
        !(kind is Codex),
        kind is Traex ==> member(v, "session_id"@) == Some(Tree::Text(id)) && member(v, "text"@)
            == Some(Tree::Text(text)),
        kind is ClaudeCode ==> member(v, "sessionId"@) == Some(Tree::Text(id)) && member(
            v,
            "display"@,
        ) == Some(Tree::Text(text)),
        trimmed(id).len() > 0,
        trimmed(text).len() > 0,
    ensures
        ({
            let before = hints_of(kind, values);
            let after = hints_of(kind, values.push(v));
            let k = trimmed(id);
            &&& after.contains_key(k)
            &&& before.contains_key(k) && before[k].title is Some ==> after[k].title
                == before[k].title
            &&& !before.contains_key(k) ==> after[k].title == Some(title_of(trimmed(text)))
            &&& before.contains_key(k) ==> after[k].updated_at_millis >= before[k].updated_at_millis
            &&& forall|o: Seq<char>| o != k ==> after.contains_key(o) == #[trigger] before.contains_key(
                o,
            ) && after[o] == before[o]
        }),
{
    assert(values.push(v).drop_last() =~= values);
}

// ---------------------------------------------------------------------------
// Listing and picking
// ---------------------------------------------------------------------------

/// The sessions that are found stand newest first; of two that are as new, the one
/// with the greater identifier stands first.
pub proof fn lemma_newest_sessions_come_first(
    kind: ProviderKind,
    files: Seq<SessionFileView>,
    index: Seq<Seq<char>>,
    limit: nat,
    i: int,
    j: int,
)
    requires
        0 <= i < j < discovered(kind, files, index, limit).len(),
    ensures
        ({
            let a = discovered(kind, files, index, limit)[i];
            let b = discovered(kind, files, index, limit)[j];
            &&& a.updated_at_millis >= b.updated_at_millis
            &&& a.updated_at_millis == b.updated_at_millis ==> text_less(b.id, a.id)
            &&& a.id != b.id
        }),
{
    lemma_discovered_in_order(kind, files, index, limit);
}

/// How many sessions are listed: as many as asked for, twenty where nothing is
/// asked, and never more than are looked at.
pub proof fn lemma_lists_are_limited(limit: Option<usize>)
    ensures
        list_limit(limit) <= 50000,
        limit is None ==> list_limit(limit) == 20,
        limit matches Some(n) ==> (n <= 50000 ==> list_limit(limit) == n),
{
}

/// What is looked at: fifty thousand files, four mebibytes of each, thirty-two of an
/// index, and lines of at most one.
pub proof fn lemma_limits_of_the_search()
    ensures
        MAX_DISCOVERED_FILES == 50000,
        MAX_SESSION_SCAN_BYTES == 4 * 1024 * 1024,
        MAX_INDEX_SCAN_BYTES == 32 * 1024 * 1024,
        MAX_LINE_BYTES == 1024 * 1024,
{
}

proof fn lemma_with_id_prefix(list: Seq<LocalSessionView>, id: Seq<char>)
    ensures
        forall|k: int|
            0 <= k < with_id_prefix(list, id).len() ==> list.contains(
                #[trigger] with_id_prefix(list, id)[k],
            ) && has_prefix(with_id_prefix(list, id)[k].id, id),
        (forall|i: int| 0 <= i < list.len() ==> !has_prefix((#[trigger] list[i]).id, id))
            ==> with_id_prefix(list, id).len() == 0,
        forall|i: int|
            0 <= i < list.len() && has_prefix((#[trigger] list[i]).id, id) ==> with_id_prefix(
                list,
                id,
            ).contains(list[i]),
    decreases list.len(),
{
    if list.len() > 0 {
        let rest = list.drop_last();
        lemma_with_id_prefix(rest, id);
        let before = with_id_prefix(rest, id);
        let after = with_id_prefix(list, id);
        assert(list[list.len() - 1] == list.last());
        assert forall|i: int| 0 <= i < rest.len() implies #[trigger] rest[i] == list[i] by {}
        assert forall|k: int| 0 <= k < after.len() implies list.contains(#[trigger] after[k])
            && has_prefix(after[k].id, id) by {
            if k < before.len() {
                assert(after[k] == before[k]);
                let q = choose|q: int| 0 <= q < rest.len() && rest[q] == before[k];
                assert(list[q] == after[k]);
            }
        }
        assert forall|i: int|
            0 <= i < list.len() && has_prefix((#[trigger] list[i]).id, id) implies after.contains(
            list[i],
        ) by {
            if i < rest.len() {
                assert(before.contains(rest[i]));
                let q = choose|q: int| 0 <= q < before.len() && before[q] == rest[i];
                assert(after[q] == list[i]);
            } else {
                assert(after.last() == list[i]);
            }
        }
        if forall|i: int| 0 <= i < list.len() ==> !has_prefix((#[trigger] list[i]).id, id) {
            assert forall|i: int| 0 <= i < rest.len() implies !has_prefix(
                (#[trigger] rest[i]).id,
                id,
            ) by {
                assert(rest[i] == list[i]);
            }
        }
    }
}

proof fn lemma_with_id(list: Seq<LocalSessionView>, id: Seq<char>)
    ensures
        with_id(list, id) matches Some(s) ==> s.id == id && list.contains(s),
        with_id(list, id) is None ==> forall|i: int|
            0 <= i < list.len() ==> (#[trigger] list[i]).id != id,
    decreases list.len(),
{
    if list.len() > 0 && list[0].id != id {
        let rest = list.drop_first();
        lemma_with_id(rest, id);
        if with_id(rest, id) is Some {
            let s = with_id(rest, id)->Some_0;
            let q = choose|q: int| 0 <= q < rest.len() && rest[q] == s;
            assert(list[q + 1] == s);
        } else {
            assert forall|i: int| 0 <= i < list.len() implies (#[trigger] list[i]).id != id by {
                if i > 0 {
                    assert(rest[i - 1] == list[i]);
                }
            }
        }
    }
}

/// A session that is picked is one of the list whose identifier is, or begins
/// with, what was asked for.
pub proof fn lemma_picked_sessions_are_asked_for(list: Seq<LocalSessionView>, requested: Seq<char>)
    ensures
        picked(list, requested) matches Ok(s) ==> list.contains(s) && has_prefix(
            s.id,
            trimmed(requested),
        ),
{
    let id = trimmed(requested);
    lemma_with_id(list, id);
    lemma_with_id_prefix(list, id);
    if with_id(list, id) is Some {
        let s = with_id(list, id)->Some_0;
        assert(s.id.subrange(0, id.len() as int) =~= id);
    } else if picked(list, requested) is Ok {
        assert(with_id_prefix(list, id)[0] == picked(list, requested)->Ok_0);
    }
}

/// The beginning of an identifier picks a session where it has eight characters or
/// more and only that session begins with it.
pub proof fn lemma_unique_prefixes_pick(list: Seq<LocalSessionView>, requested: Seq<char>, i: int)
    requires
        0 <= i < list.len(),
        trimmed(requested).len() >= 8,
        has_prefix(list[i].id, trimmed(requested)),
        forall|j: int|
            0 <= j < list.len() && j != i ==> !has_prefix(
                (#[trigger] list[j]).id,
                trimmed(requested),
            ),
    ensures
        picked(list, requested) == Ok::<LocalSessionView, Seq<char>>(list[i]),
{
    let id = trimmed(requested);
    lemma_with_id(list, id);
    lemma_only_one_with_prefix(list, id, i);
    if with_id(list, id) is Some {
        let s = with_id(list, id)->Some_0;
        let q = choose|q: int| 0 <= q < list.len() && list[q] == s;
        assert(s.id.subrange(0, id.len() as int) =~= id);
        assert(has_prefix(list[q].id, id));
        assert(q == i);
    }
}

proof fn lemma_only_one_with_prefix(list: Seq<LocalSessionView>, id: Seq<char>, i: int)
    requires
        0 <= i < list.len(),
        has_prefix(list[i].id, id),
        forall|j: int|
            0 <= j < list.len() && j != i ==> !has_prefix((#[trigger] list[j]).id, id),
    ensures
        with_id_prefix(list, id) == seq![list[i]],
    decreases list.len(),
{
    let rest = list.drop_last();
    assert forall|j: int| 0 <= j < rest.len() implies #[trigger] rest[j] == list[j] by {}
    assert(list[list.len() - 1] == list.last());
    if i < rest.len() {
        lemma_only_one_with_prefix(rest, id, i);
    } else {
        lemma_with_id_prefix(rest, id);
        assert(with_id_prefix(rest, id) =~= Seq::empty());
    }
    assert(with_id_prefix(list, id) =~= seq![list[i]]);
}

/// What is too short for a beginning, begins no identifier or begins several picks
/// no session.
pub proof fn lemma_unclear_requests_pick_nothing(
    list: Seq<LocalSessionView>,
    requested: Seq<char>,
)
    requires
        forall|i: int| 0 <= i < list.len() ==> (#[trigger] list[i]).id != trimmed(requested),
    ensures
        trimmed(requested).len() < 8 ==> picked(list, requested) is Err,
        (forall|i: int|
            0 <= i < list.len() ==> !has_prefix((#[trigger] list[i]).id, trimmed(requested)))
            ==> picked(list, requested) is Err,
        (exists|i: int, j: int|
            0 <= i < j < list.len() && list[i] != list[j] && has_prefix(
                (#[trigger] list[i]).id,
                trimmed(requested),
            ) && has_prefix((#[trigger] list[j]).id, trimmed(requested))) ==> picked(
            list,
            requested,
        ) is Err,
{
    let id = trimmed(requested);
    lemma_with_id(list, id);
    lemma_with_id_prefix(list, id);
    if with_id(list, id) is Some {
        let s = with_id(list, id)->Some_0;
        let q = choose|q: int| 0 <= q < list.len() && list[q] == s;
        assert(list[q].id == id);
    }
    let found = with_id_prefix(list, id);
    if exists|i: int, j: int|
        0 <= i < j < list.len() && list[i] != list[j] && has_prefix(
            (#[trigger] list[i]).id,
            id,
        ) && has_prefix((#[trigger] list[j]).id, id) {
        let (i, j) = choose|i: int, j: int|
            0 <= i < j < list.len() && list[i] != list[j] && has_prefix(
                (#[trigger] list[i]).id,
                id,
            ) && has_prefix((#[trigger] list[j]).id, id);
        assert(found.contains(list[i]) && found.contains(list[j]));
        let a = choose|a: int| 0 <= a < found.len() && found[a] == list[i];
        let b = choose|b: int| 0 <= b < found.len() && found[b] == list[j];
        assert(a != b);
        assert(found.len() > 1);
    }
}

/// `/resume` alone lists, with one identifier it picks, and with more it is
/// refused. Every other message is none of its.
pub proof fn lemma_resume_commands(message: Seq<char>)
    ensures
        ({
            let w = words(trimmed(message));
            &&& w.len() == 0 ==> resume_command_of(message) is None
            &&& w.len() > 0 && lowered(w[0]) != lowered("/resume"@) ==> resume_command_of(
                message,
            ) is None
            &&& w.len() > 0 && lowered(w[0]) == lowered("/resume"@) ==> (resume_command_of(
                message,
            ) matches Some(c) && (w.len() == 1 <==> c == Ok::<ResumeView, Seq<char>>(
                ResumeView::List,
            )) && (w.len() > 2 ==> c is Err) && (c matches Ok(ResumeView::Pick(id)) ==> w.len() == 2
                && id == w[1]))
        }),
{
}

/// An identifier that can be one picks.
pub proof fn lemma_plain_identifiers_are_picked(message: Seq<char>)
    requires
        words(trimmed(message)).len() == 2,
        lowered(words(trimmed(message))[0]) == lowered("/resume"@),
        crate::local_sessions::session_id_like(words(trimmed(message))[1]),
    ensures
        resume_command_of(message) == Some(
            Ok::<ResumeView, Seq<char>>(ResumeView::Pick(words(trimmed(message))[1])),
        ),
{
}

/// A selection is remembered just where a session was picked for a conversation,
/// and then it is that session.
pub proof fn lemma_only_picks_change_the_store(
    store: StoreView,
    adapter: Seq<char>,
    selection: Option<(Seq<char>, Seq<char>)>,
    files: Seq<SessionFileView>,
    index: Seq<Seq<char>>,
    id: Seq<char>,
    now: u64,
)
    ensures
        resume_store(store, adapter, ResumeView::List, selection, files, index, now) == store,
        resume_store(store, adapter, ResumeView::Pick(id), None, files, index, now) == store,
        resume_answer(adapter, ResumeView::Pick(id), selection is Some, files, index) is Err
            && provider_of(adapter) is Some ==> resume_store(
            store,
            adapter,
            ResumeView::Pick(id),
            selection,
            files,
            index,
            now,
        ) == store,
        selection is None ==> resume_answer(
            adapter,
            ResumeView::Pick(id),
            selection is Some,
            files,
            index,
        ) is Err,
        provider_of(adapter) is None ==> resume_answer(
            adapter,
            ResumeView::List,
            selection is Some,
            files,
            index,
        ) is Err,
{
}

/// Three agents keep sessions that can be resumed.
pub proof fn lemma_agents_with_sessions(adapter: Seq<char>)
    ensures
        trimmed(adapter) == "codex"@ <==> provider_of(adapter) == Some(ProviderKind::Codex),
        trimmed(adapter) == "traex"@ <==> provider_of(adapter) == Some(ProviderKind::Traex),
        trimmed(adapter) == "claude_code"@ <==> provider_of(adapter) == Some(
            ProviderKind::ClaudeCode,
        ),
{
    reveal_strlit("codex");
    reveal_strlit("traex");
    reveal_strlit("claude_code");
    assert("codex"@[0] == 'c' && "traex"@[0] == 't');
    assert("codex"@.len() == 5 && "claude_code"@.len() == 11);
}

/// A message that holds its text deeper is read there: an object is read through its
/// content.
pub proof fn lemma_texts_deep_in_messages(m: Seq<(Seq<char>, Tree)>, items: Seq<Tree>, s: Seq<char>)
    ensures
        find_member(m, "text"@) is None && find_member(m, "content"@) == Some(Tree::List(items))
            ==> message_text_of(Tree::Object(m)) == message_text_of(Tree::List(items)),
        find_member(m, "text"@) is None && find_member(m, "content"@) is None ==> message_text_of(
            Tree::Object(m),
        ) is None,
        items.len() == 0 ==> message_text_of(Tree::List(items)) is None,
        items.len() > 0 && tree_text(Some(items[0])) is None && member(items[0], "text"@) is None
            && member(items[0], "content"@) == Some(Tree::Text(s)) && trimmed(s).len() > 0
            ==> message_text_of(Tree::List(items)) == Some(trimmed(s)),
{
    reveal_with_fuel(message_text_of, 2);
}

/// A line about a session of Codex or Traex may bear a second time, and the newer one
/// counts.
pub proof fn lemma_second_times(kind: ProviderKind, values: Seq<Tree>, v: Tree, p: Tree)
    requires
        !(kind is ClaudeCode),
        member(v, "type"@) == Some(Tree::Text("session_meta"@)),
        member(v, "payload"@) == Some(p),
    ensures
        ({
            let t = meta_of(kind, values.push(v)).updated_at_millis;
            &&& t >= timestamp_of(member(p, "timestamp"@))
            &&& t == meta_of(kind, values).updated_at_millis || t == timestamp_of(
                member(v, "timestamp"@),
            ) || t == timestamp_of(member(p, "timestamp"@))
        }),
{
    assert(values.push(v).drop_last() =~= values);
}

/// The other spellings in the files of `claude_code`.
pub proof fn lemma_other_spellings(values: Seq<Tree>, v: Tree, t: Seq<char>)
    requires
        trimmed(t).len() > 0,
    ensures
        meta_of(ProviderKind::ClaudeCode, values).id is None && member(v, "sessionId"@) is None
            && member(v, "session_id"@) == Some(Tree::Text(t)) ==> meta_of(
            ProviderKind::ClaudeCode,
            values.push(v),
        ).id == Some(trimmed(t)),
        member(v, "type"@) == Some(Tree::Text("ai-title"@)) && member(v, "aiTitle"@) is None
            && member(v, "title"@) == Some(Tree::Text(t)) ==> meta_of(
            ProviderKind::ClaudeCode,
            values.push(v),
        ).ai_title == Some(trimmed(t)),
        member(v, "type"@) != Some(Tree::Text("ai-title"@)) ==> meta_of(
            ProviderKind::ClaudeCode,
            values.push(v),
        ).ai_title == meta_of(ProviderKind::ClaudeCode, values).ai_title,
{
    assert(values.push(v).drop_last() =~= values);
}

/// Times are written as text too, and times before the epoch or that cannot be read
/// are none.
pub proof fn lemma_times_of_texts(s: Seq<char>, n: i64)
    ensures
        rfc3339_millis(s) == Some(n) && n >= 0 ==> timestamp_of(Some(Tree::Text(s))) == n,
        rfc3339_millis(s) == Some(n) && n < 0 ==> timestamp_of(Some(Tree::Text(s))) == 0,
        rfc3339_millis(s) is None ==> timestamp_of(Some(Tree::Text(s))) == 0,
        n < 0 ==> timestamp_of(Some(Tree::Signed(n))) == 0,
{
}

/// A time is shown as a date, and one that is none as unknown.
pub proof fn lemma_dates(millis: u64, text: Seq<char>)
    ensures
        millis <= i64::MAX && utc_text(millis as i64) == Some(text) ==> datetime_of(millis) == text,
        millis <= i64::MAX && utc_text(millis as i64) is None ==> datetime_of(millis)
            == "unknown"@,
        millis > i64::MAX ==> datetime_of(millis) == "unknown"@,
{
}

/// Of two files of one session the newer counts, and of two that are as new the
/// later.
pub proof fn lemma_newer_files_count(
    kind: ProviderKind,
    files: Seq<SessionFileView>,
    f: SessionFileView,
    hints: Map<Seq<char>, HintView>,
)
    ensures
        ({
            let before = sessions_of(kind, files, hints);
            let after = sessions_of(kind, files.push(f), hints);
            &&& session_of(kind, f, hints) is None ==> after == before
            &&& session_of(kind, f, hints) matches Some(s) ==> after.contains_key(s.id) && (
            !before.contains_key(s.id) || before[s.id].updated_at_millis <= s.updated_at_millis
                ==> after[s.id] == s) && (before.contains_key(s.id)
                && before[s.id].updated_at_millis > s.updated_at_millis ==> after == before)
        }),
{
    assert(files.push(f).drop_last() =~= files);
}

/// A list of sessions counts them and gives each with its identifier, its title and
/// its date.
pub proof fn lemma_lists_of_sessions(
    adapter: Seq<char>,
    list: Seq<LocalSessionView>,
    s: LocalSessionView,
)
    ensures
        session_lines(list.push(s)) == session_lines(list) + ("\n"@ + decimal(list.len() + 1)
            + ". "@ + s.id + " / "@ + s.title + " / "@ + s.datetime),
        list.len() == 0 ==> session_list_text(adapter, list) == "没有找到 "@ + provider_label(
            adapter,
        ) + " 本地 session。"@,
        list.len() > 0 ==> has_text(session_list_text(adapter, list), session_lines(list)),
        trimmed(adapter) == "codex"@ ==> provider_label(adapter) == "Codex"@,
        trimmed(adapter) == "traex"@ ==> provider_label(adapter) == "Traex"@,
        trimmed(adapter) == "claude_code"@ ==> provider_label(adapter)
            == crate::agent_config::claude_product(),
{
    lemma_agents_with_sessions(adapter);
    assert(list.push(s).drop_last() =~= list);
    if list.len() > 0 {
        let label = provider_label(adapter);
        let head = "最近 "@ + decimal(list.len()) + " 个 "@ + label + " 本地 session：\n"@;
        let t = session_list_text(adapter, list);
        let n = head.len() as int;
        assert(t.subrange(n, n + session_lines(list).len()) =~= session_lines(list));
        assert(occurs_at(t, session_lines(list), n));
    }
}

/// A session that is chosen is the thread that the conversation goes on with; what
/// else is known of the conversation stays.
pub proof fn lemma_choices_are_kept(
    store: StoreView,
    session_key: Seq<char>,
    adapter: Seq<char>,
    runner_id: Seq<char>,
    id: Seq<char>,
    now: u64,
)
    ensures
        ({
            let key = state_key_of(session_key, adapter, Some(runner_id));
            let after = selected(store, session_key, adapter, runner_id, id, now);
            let before = slot(store, session_key, adapter, Some(runner_id));
            &&& after.sessions.contains_key(key)
            &&& after.sessions[key].external_thread_id == Some(id)
            &&& after.sessions[key].external_conversation_id is None
            &&& after.sessions[key].messages == before.messages
            &&& after.sessions[key].title == before.title
            &&& after.sessions[key].updated_at == now
        }),
{
}

proof fn lemma_finitely_many_sessions(
    kind: ProviderKind,
    files: Seq<SessionFileView>,
    hints: Map<Seq<char>, HintView>,
)
    ensures
        sessions_of(kind, files, hints).dom().finite(),
    decreases files.len(),
{
    if files.len() > 0 {
        lemma_finitely_many_sessions(kind, files.drop_last(), hints);
    }
}

/// Every session that a file holds is listed, unless the list is full of newer ones.
pub proof fn lemma_every_session_is_listed(
    kind: ProviderKind,
    files: Seq<SessionFileView>,
    index: Seq<Seq<char>>,
    limit: nat,
    i: int,
)
    requires
        0 <= i < files.len(),
        discovered(kind, files, index, limit).len() < limit,
    ensures
        session_of(kind, files[i], hints_of(kind, line_values(index))) matches Some(s) ==> exists|
            j: int,
        |
            0 <= j < discovered(kind, files, index, limit).len() && (#[trigger] discovered(
                kind,
                files,
                index,
                limit,
            )[j]).id == s.id && discovered(kind, files, index, limit)[j].updated_at_millis
                >= s.updated_at_millis,
{
    let hints = hints_of(kind, line_values(index));
    let m = sessions_of(kind, files, hints);
    crate::local_sessions::lemma_sessions_by_id(kind, files, hints);
    lemma_finitely_many_sessions(kind, files, hints);
    crate::local_sessions::lemma_sessions_can_be_listed(m);
    crate::local_sessions::lemma_newest_of_each_is_found(kind, files, hints);
    let full = crate::local_sessions::listing(m);
    let d = discovered(kind, files, index, limit);
    assert(d == full);
    if session_of(kind, files[i], hints) is Some {
        let s = session_of(kind, files[i], hints)->Some_0;
        assert(m.contains_key(s.id));
        assert(full.contains(m[s.id]));
        let j = choose|j: int| 0 <= j < full.len() && full[j] == m[s.id];
        assert(d[j].id == s.id);
    }
}

/// A session that is picked is told and is the thread that the conversation goes on
/// with.
pub proof fn lemma_picks_are_remembered(
    store: StoreView,
    adapter: Seq<char>,
    session_key: Seq<char>,
    runner_id: Seq<char>,
    files: Seq<SessionFileView>,
    index: Seq<Seq<char>>,
    id: Seq<char>,
    now: u64,
    kind: ProviderKind,
    s: LocalSessionView,
)
    requires
        provider_of(adapter) == Some(kind),
        picked(discovered(kind, files, index, 50000), id) == Ok::<LocalSessionView, Seq<char>>(s),
    ensures
        ({
            let after = resume_store(
                store,
                adapter,
                ResumeView::Pick(id),
                Some((session_key, runner_id)),
                files,
                index,
                now,
            );
            let key = state_key_of(session_key, adapter, Some(runner_id));
            &&& after.sessions.contains_key(key)
            &&& after.sessions[key].external_thread_id == Some(s.id)
            &&& resume_answer(adapter, ResumeView::Pick(id), true, files, index) matches Ok(t)
                && has_text(t, s.id) && has_text(t, s.title)
        }),
{
    let a = "已选择本地 session：\n- id: `"@;
    let b = "`\n- title: "@;
    let t = crate::local_sessions::picked_text(s);
    let n = a.len() as int;
    assert(t.subrange(n, n + s.id.len()) =~= s.id);
    assert(occurs_at(t, s.id, n));
    let k = (a + s.id + b).len() as int;
    assert(t.subrange(k, k + s.title.len()) =~= s.title);
    assert(occurs_at(t, s.title, k));
}

/// `/resume` alone lists the newest twenty.
pub proof fn lemma_lists_are_answered(
    adapter: Seq<char>,
    files: Seq<SessionFileView>,
    index: Seq<Seq<char>>,
    has_selection: bool,
    kind: ProviderKind,
)
    requires
        provider_of(adapter) == Some(kind),
    ensures
        resume_answer(adapter, ResumeView::List, has_selection, files, index) == Ok::<
            Seq<char>,
            Seq<char>,
        >(session_list_text(adapter, discovered(kind, files, index, 20))),
{
}

/// Identifiers are made of letters, digits and four signs, and are at most as long as a
/// short line.
pub proof fn lemma_identifiers(id: Seq<char>)
    ensures
        session_id_like(id) <==> byte_len(id) <= 128 && forall|i: int|
            0 <= i < id.len() ==> #[trigger] identifier_char(id[i]),
{
    reveal_strlit("-_.:");
    let more = "-_.:"@;
    assert(more =~= seq!['-', '_', '.', ':']);
    assert(more[0] == '-' && more[1] == '_' && more[2] == '.' && more[3] == ':');
    assert forall|c: char| more.contains(c) <==> c == '-' || c == '_' || c == '.' || c == ':' by {
        if c == '-' || c == '_' || c == '.' || c == ':' {
            assert(more[0] == c || more[1] == c || more[2] == c || more[3] == c);
        }
    }
    assert forall|i: int| 0 <= i < id.len() implies (identifier_char(#[trigger] id[i]) <==> (
    crate::text::ascii_letter_or_digit(id[i]) || more.contains(id[i]))) by {}
    if session_id_like(id) {
        assert forall|i: int| 0 <= i < id.len() implies #[trigger] identifier_char(id[i]) by {}
    }
    if byte_len(id) <= 128 && forall|i: int|
        0 <= i < id.len() ==> #[trigger] identifier_char(id[i]) {
        assert forall|i: int| 0 <= i < id.len() implies crate::text::ascii_letter_or_digit(
            #[trigger] id[i],
        ) || more.contains(id[i]) by {
            assert(identifier_char(id[i]));
        }
    }
}

/// The characters that identifiers are made of.
pub open spec fn identifier_char(c: char) -> bool {
    'a' <= c <= 'z' || 'A' <= c <= 'Z' || '0' <= c <= '9' || c == '-' || c == '_' || c == '.' || c
        == ':'
}

/// What is answered to a command that cannot be read.
pub proof fn lemma_commands_that_cannot_be_read(message: Seq<char>)
    requires
        words(trimmed(message)).len() >= 2,
        lowered(words(trimmed(message))[0]) == lowered("/resume"@),
    ensures
        words(trimmed(message)).len() > 2 ==> resume_command_of(message) == Some(
            Err::<ResumeView, Seq<char>>("用法: /resume [session-id]"@),
        ),
        words(trimmed(message)).len() == 2 && !session_id_like(words(trimmed(message))[1])
            ==> resume_command_of(message) == Some(
            Err::<ResumeView, Seq<char>>(
                "session id 只能包含字母、数字、短横线、下划线、点或冒号，且不能超过 128 个字符。"@,
            ),
        ),
{
}

/// What is answered where no session can be told from what was asked for.
pub proof fn lemma_reasons_for_picking_nothing(list: Seq<LocalSessionView>, requested: Seq<char>)
    requires
        with_id(list, trimmed(requested)) is None,
    ensures
        ({
            let id = trimmed(requested);
            let found = with_id_prefix(list, id).len();
            &&& id.len() < 8 ==> picked(list, requested) == Err::<LocalSessionView, Seq<char>>(
                "未找到完整 session id `"@ + id + "`；使用前缀时请至少输入 8 个字符。"@,
            )
            &&& id.len() >= 8 && found == 0 ==> picked(list, requested) == Err::<
                LocalSessionView,
                Seq<char>,
            >("本地没有找到 session `"@ + id + "`。请先发送 /resume 查看最近会话。"@)
            &&& id.len() >= 8 && found > 1 ==> picked(list, requested) == Err::<
                LocalSessionView,
                Seq<char>,
            >("session 前缀 `"@ + id + "` 匹配多条会话，请使用更长或完整的 id。"@)
        }),
{
}

/// Agents without sessions, and conversations that cannot keep a choice, are told so.
pub proof fn lemma_reasons_for_no_answer(
    adapter: Seq<char>,
    command: ResumeView,
    id: Seq<char>,
    files: Seq<SessionFileView>,
    index: Seq<Seq<char>>,
    has: bool,
)
    ensures
        provider_of(adapter) is None ==> resume_answer(adapter, command, has, files, index) == Err::<
            Seq<char>,
            Seq<char>,
        >(
            "/resume 当前仅支持 Codex、Traex 或 "@ + crate::agent_config::claude_product()
                + " Runner。"@,
        ) && resolved_session(adapter, files, index, id) == Err::<LocalSessionView, Seq<char>>(
            "adapter `"@ + trimmed(adapter) + "` does not support local session resume"@,
        ),
        provider_of(adapter) is Some ==> resume_answer(
            adapter,
            ResumeView::Pick(id),
            false,
            files,
            index,
        ) == Err::<Seq<char>, Seq<char>>("sessionKey is required to persist /resume selection"@),
{
}

/// A choice is answered with the identifier, the title and the time of the session.
pub proof fn lemma_words_of_choices(s: LocalSessionView, adapter: Seq<char>)
    ensures
        picked_text(s) == "已选择本地 session：\n- id: `"@ + s.id + "`\n- title: "@ + s.title
            + "\n- datetime: "@ + s.datetime + "\n\n下一条普通消息将恢复此会话。"@,
        session_list_text(adapter, seq![s]) == "最近 "@ + decimal(1) + " 个 "@ + provider_label(
            adapter,
        ) + " 本地 session：\n"@ + session_lines(seq![s])
            + "\n\n发送 `/resume <id>` 选择；也可以使用至少 8 位的唯一 id 前缀。"@,
{
}

/// A prompt in the history makes its session as new as the prompt.
pub proof fn lemma_prompts_bear_times(values: Seq<Tree>, v: Tree, id: Seq<char>)
    ensures
        named_text(v, "session_id"@) == Some(id) ==> ({
            let before = hints_of(ProviderKind::Traex, values);
            let after = hints_of(ProviderKind::Traex, values.push(v));
            let t = timestamp_of(member(v, "ts"@));
            &&& after.contains_key(id)
            &&& after[id].updated_at_millis >= t
            &&& !before.contains_key(id) ==> after[id].updated_at_millis == t
            &&& before.contains_key(id) ==> after[id].updated_at_millis
                >= before[id].updated_at_millis && (after[id].updated_at_millis == t
                || after[id].updated_at_millis == before[id].updated_at_millis)
        }),
        named_text(v, "sessionId"@) == Some(id) ==> ({
            let before = hints_of(ProviderKind::ClaudeCode, values);
            let after = hints_of(ProviderKind::ClaudeCode, values.push(v));
            let t = timestamp_of(member(v, "timestamp"@));
            &&& after.contains_key(id)
            &&& after[id].updated_at_millis >= t
            &&& !before.contains_key(id) ==> after[id].updated_at_millis == t
            &&& before.contains_key(id) ==> after[id].updated_at_millis
                >= before[id].updated_at_millis && (after[id].updated_at_millis == t
                || after[id].updated_at_millis == before[id].updated_at_millis)
        }),
{
    assert(values.push(v).drop_last() =~= values);
}

/// Nothing is known of a file without lines.
pub proof fn lemma_files_without_lines(kind: ProviderKind)
    ensures
        meta_of(kind, Seq::empty()).id is None,
        meta_of(kind, Seq::empty()).title is None,
        meta_of(kind, Seq::empty()).updated_at_millis == 0,
        hints_of(kind, Seq::empty()) == Map::<Seq<char>, HintView>::empty(),
{
}

} // verus!
