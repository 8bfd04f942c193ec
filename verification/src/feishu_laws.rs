//! What the reading of Feishu's messages is for: the words a message says, whom it
//! names, what it carries and where it came from.

use vstd::prelude::*;

use crate::feishu::{
    content_of, feishu_event_of, files_of, image_keys, images_of, item_texts, member_image_keys,
    member_texts, mentions_of, message_image, message_text_of, node_text, number_of,
    placeholder_by_id, placeholder_by_name, text_nodes, with_images, ws_message_of, WsMessageView,
};
use crate::im_event::{ImEventView, ImImageSource, ImProviderType, MentionView};
use crate::json::{json_of_text, member, member_of, Tree};
use crate::text::{blank, joined, trimmed};

verus! {

broadcast use vstd::string::group_string_axioms;

/// Whether a member of an object is a text.
pub open spec fn says(t: Tree, key: Seq<char>, text: Seq<char>) -> bool {
    member(t, key) == Some(Tree::Text(text))
}

/// Texts one behind the other.
pub open spec fn concatenated(parts: Seq<Seq<char>>) -> Seq<char>
    decreases parts.len(),
{
    if parts.len() == 0 {
        Seq::empty()
    } else {
        concatenated(parts.drop_last()) + parts.last()
    }
}

proof fn lemma_joined_by_nothing(parts: Seq<Seq<char>>)
    ensures
        joined(parts, ""@) == concatenated(parts),
    decreases parts.len(),
{
    reveal_strlit("");
    assert(""@ =~= Seq::<char>::empty());
    if parts.len() == 1 {
        reveal_with_fuel(concatenated, 2);
        assert(concatenated(parts) =~= parts[0]);
    } else if parts.len() > 1 {
        lemma_joined_by_nothing(parts.drop_last());
        let head = joined(parts.drop_last(), ""@);
        assert(head + ""@ =~= head);
    }
}

// ---------------------------------------------------------------------------
// Words
// ---------------------------------------------------------------------------

/// A node of rich text that says something itself: a text, a link or a block of code.
pub open spec fn says_text(node: Tree, text: Seq<char>) -> bool {
    &&& says(node, "tag"@, "text"@) || says(node, "tag"@, "a"@) || says(node, "tag"@, "code_block"@)
    &&& says(node, "text"@, text)
}

/// A node that holds no other nodes.
pub open spec fn flat(node: Tree) -> bool {
    node matches Tree::Object(m) && forall|i: int|
        0 <= i < m.len() ==> !((#[trigger] m[i]).1 is Object) && !(m[i].1 is List)
}

proof fn lemma_flat_members(m: Seq<(Seq<char>, Tree)>, mentions: Seq<MentionView>)
    requires
        forall|i: int| 0 <= i < m.len() ==> !((#[trigger] m[i]).1 is Object) && !(m[i].1 is List),
    ensures
        member_texts(m, mentions) == Seq::<Seq<char>>::empty(),
        member_image_keys(m) == Seq::<Seq<char>>::empty(),
    decreases m.len(),
{
    if m.len() > 0 {
        let head = m.drop_last();
        assert forall|i: int| 0 <= i < head.len() implies !((#[trigger] head[i]).1 is Object) && !(
        head[i].1 is List) by {
            assert(head[i] == m[i]);
        }
        lemma_flat_members(head, mentions);
        let last = m[m.len() - 1];
        assert(!(last.1 is Object) && !(last.1 is List));
        assert(text_nodes(last.1, mentions) =~= Seq::<Seq<char>>::empty());
        assert(image_keys(last.1) =~= Seq::<Seq<char>>::empty());
        assert(member_texts(m, mentions) =~= Seq::<Seq<char>>::empty());
        assert(member_image_keys(m) =~= Seq::<Seq<char>>::empty());
    }
}

/// The first thing that a node adds is what it says itself; a flat node adds nothing
/// else.
pub proof fn lemma_nodes_say_their_text(node: Tree, text: Seq<char>, mentions: Seq<MentionView>)
    requires
        says_text(node, text),
    ensures
        text_nodes(node, mentions).len() > 0,
        text_nodes(node, mentions)[0] == text,
        flat(node) ==> text_nodes(node, mentions) == seq![text],
{
    lemma_tags_differ();
    let m = node->Object_0;
    assert(node_text(node, mentions) == Some(text));
    assert((seq![text] + member_texts(m, mentions))[0] == text);
    if flat(node) {
        lemma_flat_members(m, mentions);
        assert(seq![text] + Seq::<Seq<char>>::empty() =~= seq![text]);
    }
}

proof fn lemma_tags_differ()
    ensures
        "text"@ != "a"@,
        "text"@ != "code_block"@,
        "text"@ != "at"@,
        "text"@ != "br"@,
        "a"@ != "at"@,
        "a"@ != "br"@,
        "code_block"@ != "at"@,
        "code_block"@ != "br"@,
        "code_block"@ != "a"@,
        "at"@ != "br"@,
        "img"@ != "text"@,
        "img"@ != "a"@,
        "img"@ != "code_block"@,
        "img"@ != "at"@,
        "img"@ != "br"@,
{
    reveal_strlit("text");
    reveal_strlit("a");
    reveal_strlit("code_block");
    reveal_strlit("at");
    reveal_strlit("br");
    reveal_strlit("img");
    assert("text"@.len() == 4 && "a"@.len() == 1 && "code_block"@.len() == 10 && "at"@.len() == 2
        && "br"@.len() == 2 && "img"@.len() == 3);
    assert("at"@[0] == 'a' && "br"@[0] == 'b');
}

/// Whether nodes say these texts, each of them one.
pub open spec fn nodes_say(nodes: Seq<Tree>, parts: Seq<Seq<char>>) -> bool {
    &&& nodes.len() == parts.len()
    &&& forall|i: int|
        0 <= i < nodes.len() ==> flat(#[trigger] nodes[i]) && (says_text(nodes[i], parts[i]) || (
        says(nodes[i], "tag"@, "br"@) && parts[i] == "\n"@))
}

proof fn lemma_nodes_in_order(
    nodes: Seq<Tree>,
    parts: Seq<Seq<char>>,
    mentions: Seq<MentionView>,
)
    requires
        nodes_say(nodes, parts),
    ensures
        item_texts(nodes, mentions) == parts,
    decreases nodes.len(),
{
    if nodes.len() > 0 {
        let n = nodes.len() - 1;
        assert forall|i: int| 0 <= i < nodes.drop_last().len() implies flat(
            #[trigger] nodes.drop_last()[i],
        ) && (says_text(nodes.drop_last()[i], parts.drop_last()[i]) || (says(
            nodes.drop_last()[i],
            "tag"@,
            "br"@,
        ) && parts.drop_last()[i] == "\n"@)) by {
            assert(nodes.drop_last()[i] == nodes[i]);
        }
        lemma_nodes_in_order(nodes.drop_last(), parts.drop_last(), mentions);
        assert(flat(nodes[n]));
        if says_text(nodes[n], parts[n]) {
            lemma_nodes_say_their_text(nodes[n], parts[n], mentions);
        } else {
            lemma_breaks(nodes[n], mentions);
        }
        assert(parts.drop_last() + seq![parts[n]] =~= parts);
    } else {
        assert(item_texts(nodes, mentions) =~= parts);
    }
}

/// A break is a line end.
pub proof fn lemma_breaks(node: Tree, mentions: Seq<MentionView>)
    requires
        says(node, "tag"@, "br"@),
    ensures
        text_nodes(node, mentions).len() > 0,
        text_nodes(node, mentions)[0] == "\n"@,
        flat(node) ==> text_nodes(node, mentions) == seq!["\n"@],
{
    lemma_tags_differ();
    let m = node->Object_0;
    assert(node_text(node, mentions) == Some("\n"@));
    assert((seq!["\n"@] + member_texts(m, mentions))[0] == "\n"@);
    if flat(node) {
        lemma_flat_members(m, mentions);
        assert(seq!["\n"@] + Seq::<Seq<char>>::empty() =~= seq!["\n"@]);
    }
}

/// A message of texts, links, blocks of code and breaks says all of them, in their
/// order, with the white space round the whole taken off.
pub proof fn lemma_rich_text_is_read_whole(
    nodes: Seq<Tree>,
    parts: Seq<Seq<char>>,
    mentions: Seq<MentionView>,
)
    requires
        nodes_say(nodes, parts),
    ensures
        message_text_of(Tree::List(nodes), mentions) == trimmed(concatenated(parts)),
{
    lemma_nodes_in_order(nodes, parts, mentions);
    lemma_joined_by_nothing(parts);
}

/// Paragraphs are read one behind the other, each from its first node to its last.
pub proof fn lemma_paragraphs_in_order(
    paragraphs: Seq<Tree>,
    nodes: Seq<Tree>,
    node: Tree,
    mentions: Seq<MentionView>,
)
    ensures
        text_nodes(Tree::List(Seq::empty()), mentions) == Seq::<Seq<char>>::empty(),
        text_nodes(Tree::List(nodes.push(node)), mentions) == text_nodes(
            Tree::List(nodes),
            mentions,
        ) + text_nodes(node, mentions),
        text_nodes(Tree::List(paragraphs.push(Tree::List(nodes))), mentions) == text_nodes(
            Tree::List(paragraphs),
            mentions,
        ) + text_nodes(Tree::List(nodes), mentions),
{
    assert(nodes.push(node).drop_last() =~= nodes);
    assert(paragraphs.push(Tree::List(nodes)).drop_last() =~= paragraphs);
}

/// What the members of an object say comes behind what it says itself, in their
/// order; words outside of nodes are no text.
pub proof fn lemma_members_in_order(
    m: Seq<(Seq<char>, Tree)>,
    key: Seq<char>,
    value: Tree,
    mentions: Seq<MentionView>,
    words: Seq<char>,
)
    requires
        node_text(Tree::Object(m), mentions) is None,
        node_text(Tree::Object(m.push((key, value))), mentions) is None,
    ensures
        text_nodes(Tree::Object(m.push((key, value))), mentions) == text_nodes(
            Tree::Object(m),
            mentions,
        ) + text_nodes(value, mentions),
        text_nodes(Tree::Text(words), mentions) == Seq::<Seq<char>>::empty(),
{
    assert(m.push((key, value)).drop_last() =~= m);
    let none = Seq::<Seq<char>>::empty();
    assert(none + member_texts(m.push((key, value)), mentions) =~= (none + member_texts(
        m,
        mentions,
    )) + text_nodes(value, mentions));
}

/// A plain message says its text as it is, whatever else the content holds.
pub proof fn lemma_plain_text_is_kept(content: Tree, text: Seq<char>, mentions: Seq<MentionView>)
    requires
        says(content, "text"@, text),
    ensures
        message_text_of(content, mentions) == text,
{
}

/// A message without words says nothing: an image or another node that is no text
/// adds none.
pub proof fn lemma_other_nodes_say_nothing(node: Tree, mentions: Seq<MentionView>)
    requires
        says(node, "tag"@, "img"@),
        flat(node),
    ensures
        text_nodes(node, mentions) == Seq::<Seq<char>>::empty(),
{
    lemma_tags_differ();
    lemma_flat_members(node->Object_0, mentions);
    assert(text_nodes(node, mentions) =~= Seq::<Seq<char>>::empty());
}

// ---------------------------------------------------------------------------
// Mentions
// ---------------------------------------------------------------------------

/// Someone who is named by an identifier is written as the placeholder of the first
/// mention with it, and else as the placeholder of the first with the same name.
pub proof fn lemma_mentions_become_placeholders(
    node: Tree,
    mentions: Seq<MentionView>,
    at: int,
    id: Seq<char>,
)
    requires
        says(node, "tag"@, "at"@),
        says(node, "open_id"@, id) || (member(node, "open_id"@) is None && says(
            node,
            "user_id"@,
            id,
        )),
        trimmed(id).len() > 0,
        0 <= at < mentions.len(),
        mentions[at].open_id == Some(trimmed(id)),
        trimmed(mentions[at].key).len() > 0,
        forall|i: int|
            0 <= i < at ==> (#[trigger] mentions[i]).open_id != Some(trimmed(id)) || trimmed(
                mentions[i].key,
            ).len() == 0,
    ensures
        node_text(node, mentions) == Some(mentions[at].key),
{
    lemma_tags_differ();
    lemma_first_by_id(mentions, at, trimmed(id));
}

proof fn lemma_first_by_id(mentions: Seq<MentionView>, at: int, id: Seq<char>)
    requires
        0 <= at < mentions.len(),
        mentions[at].open_id == Some(id),
        trimmed(mentions[at].key).len() > 0,
        forall|i: int|
            0 <= i < at ==> (#[trigger] mentions[i]).open_id != Some(id) || trimmed(
                mentions[i].key,
            ).len() == 0,
    ensures
        placeholder_by_id(mentions, id) == Some(mentions[at].key),
    decreases at,
{
    if at > 0 {
        let tail = mentions.drop_first();
        assert(mentions[0].open_id != Some(id) || trimmed(mentions[0].key).len() == 0);
        assert(tail[at - 1] == mentions[at]);
        assert forall|i: int| 0 <= i < at - 1 implies (#[trigger] tail[i]).open_id != Some(id)
            || trimmed(tail[i].key).len() == 0 by {
            assert(tail[i] == mentions[i + 1]);
        }
        lemma_first_by_id(tail, at - 1, id);
    }
}

proof fn lemma_none_by_id(mentions: Seq<MentionView>, id: Seq<char>)
    requires
        forall|i: int|
            0 <= i < mentions.len() ==> (#[trigger] mentions[i]).open_id != Some(id),
    ensures
        placeholder_by_id(mentions, id) is None,
    decreases mentions.len(),
{
    if mentions.len() > 0 {
        let tail = mentions.drop_first();
        assert(mentions[0].open_id != Some(id));
        assert forall|i: int| 0 <= i < tail.len() implies (#[trigger] tail[i]).open_id != Some(id) by {
            assert(tail[i] == mentions[i + 1]);
        }
        lemma_none_by_id(tail, id);
    }
}

proof fn lemma_first_by_name(mentions: Seq<MentionView>, at: int, name: Seq<char>)
    requires
        0 <= at < mentions.len(),
        mentions[at].name == Some(name),
        trimmed(mentions[at].key).len() > 0,
        forall|i: int|
            0 <= i < at ==> (#[trigger] mentions[i]).name != Some(name) || trimmed(
                mentions[i].key,
            ).len() == 0,
    ensures
        placeholder_by_name(mentions, name) == Some(mentions[at].key),
    decreases at,
{
    if at > 0 {
        let tail = mentions.drop_first();
        assert(mentions[0].name != Some(name) || trimmed(mentions[0].key).len() == 0);
        assert(tail[at - 1] == mentions[at]);
        assert forall|i: int| 0 <= i < at - 1 implies (#[trigger] tail[i]).name != Some(name)
            || trimmed(tail[i].key).len() == 0 by {
            assert(tail[i] == mentions[i + 1]);
        }
        lemma_first_by_name(tail, at - 1, name);
    }
}

/// Someone whom no mention has by identifier is looked for by name.
pub proof fn lemma_names_find_mentions(
    node: Tree,
    mentions: Seq<MentionView>,
    at: int,
    id: Seq<char>,
    name: Seq<char>,
)
    requires
        says(node, "tag"@, "at"@),
        says(node, "open_id"@, id),
        says(node, "user_name"@, name),
        trimmed(name).len() > 0,
        forall|i: int|
            0 <= i < mentions.len() ==> (#[trigger] mentions[i]).open_id != Some(trimmed(id)),
        0 <= at < mentions.len(),
        mentions[at].name == Some(trimmed(name)),
        trimmed(mentions[at].key).len() > 0,
        forall|i: int|
            0 <= i < at ==> (#[trigger] mentions[i]).name != Some(trimmed(name)) || trimmed(
                mentions[i].key,
            ).len() == 0,
    ensures
        node_text(node, mentions) == Some(mentions[at].key),
{
    lemma_tags_differ();
    lemma_none_by_id(mentions, trimmed(id));
    lemma_first_by_name(mentions, at, trimmed(name));
}

/// Someone whom nothing mentions is written by name, else by identifier.
pub proof fn lemma_unmentioned_people_keep_their_names(node: Tree, name: Seq<char>)
    requires
        says(node, "tag"@, "at"@),
    ensures
        says(node, "user_name"@, name) ==> node_text(node, Seq::empty()) == Some(name),
        member(node, "user_name"@) is None && says(node, "user_id"@, name) ==> node_text(
            node,
            Seq::empty(),
        ) == Some(name),
{
    lemma_tags_differ();
}

/// The mentions of a message are those that it lists, in their order, each with its
/// placeholder, its identifier and its name.
pub proof fn lemma_mentions_are_listed(message: Tree, items: Seq<Tree>, i: int)
    requires
        member(message, "mentions"@) == Some(Tree::List(items)),
        0 <= i < items.len(),
    ensures
        mentions_of(message).len() == items.len(),
        forall|k: Seq<char>| #[trigger] says(items[i], "key"@, k) ==> mentions_of(message)[i].key == k,
        member(items[i], "key"@) is None ==> mentions_of(message)[i].key.len() == 0,
        forall|n: Seq<char>| #[trigger]
            says(items[i], "name"@, n) ==> mentions_of(message)[i].name == Some(n),
        forall|n: Seq<char>| #[trigger]
            says(items[i], "tenant_key"@, n) ==> mentions_of(message)[i].tenant_key == Some(n),
        forall|id: Tree, n: Seq<char>|
            member(items[i], "id"@) == Some(id) && #[trigger] says(id, "open_id"@, n)
                ==> mentions_of(message)[i].open_id == Some(n),
        !mentions_of(message)[i].is_bot,
{
}

// ---------------------------------------------------------------------------
// Images and files
// ---------------------------------------------------------------------------

/// An image message carries its image, once.
pub proof fn lemma_image_messages(content: Tree, key: Seq<char>)
    requires
        says(content, "image_key"@, key),
        flat(content),
    ensures
        images_of(Some("image"@), content).len() == 1,
        images_of(Some("image"@), content)[0].file_key == key,
        images_of(Some("image"@), content)[0].source == ImImageSource::MessageResource,
        images_of(Some("post"@), content).len() == 1,
        images_of(Some("post"@), content)[0].file_key == key,
{
    lemma_flat_members(content->Object_0, Seq::empty());
    let none = Seq::<Seq<char>>::empty();
    let keys = image_keys(content);
    assert(keys =~= seq![key]);
    reveal_with_fuel(with_images, 2);
    let first = seq![message_image(key)];
    assert(keys.drop_last() =~= none);
    assert(first[0].file_key == key);
    assert(crate::feishu::has_image(first, key));
    assert(with_images(first, keys) =~= first);
    assert(!crate::feishu::has_image(Seq::empty(), key));
    assert(with_images(Seq::empty(), keys) =~= first);
    reveal_strlit("image");
    reveal_strlit("post");
    assert("image"@.len() == 5 && "post"@.len() == 4);
}

/// Every image that a node holds is found, wherever among the nodes it stands.
pub proof fn lemma_images_of_nodes(
    nodes: Seq<Tree>,
    node: Tree,
    m: Seq<(Seq<char>, Tree)>,
    key: Seq<char>,
)
    ensures
        image_keys(Tree::List(nodes.push(node))) == image_keys(Tree::List(nodes)) + image_keys(node),
        says(Tree::Object(m), "image_key"@, key) ==> image_keys(Tree::Object(m)).len() > 0
            && image_keys(Tree::Object(m))[0] == key,
        member(Tree::Object(m), "image_key"@) is None ==> image_keys(Tree::Object(m))
            == member_image_keys(m),
        member_image_keys(m.push((key, node))) == member_image_keys(m) + image_keys(node),
{
    assert(nodes.push(node).drop_last() =~= nodes);
    assert(m.push((key, node)).drop_last() =~= m);
    if says(Tree::Object(m), "image_key"@, key) {
        assert((seq![key] + member_image_keys(m))[0] == key);
    }
    assert(Seq::<Seq<char>>::empty() + member_image_keys(m) =~= member_image_keys(m));
}

/// A file message carries its file with its name and its type; other messages carry
/// none.
pub proof fn lemma_file_messages(content: Tree, kind: Option<Seq<char>>, key: Seq<char>)
    ensures
        kind != Some("file"@) ==> files_of(kind, content).len() == 0,
        member(content, "file_key"@) is None ==> files_of(kind, content).len() == 0,
        says(content, "file_key"@, key) ==> files_of(Some("file"@), content).len() == 1 && files_of(
            Some("file"@),
            content,
        )[0].file_key == key && (forall|n: Seq<char>| #[trigger]
            says(content, "file_name"@, n) ==> files_of(Some("file"@), content)[0].name == Some(n))
            && (forall|n: Seq<char>|
            member(content, "file_name"@) is None && #[trigger] says(content, "name"@, n)
                ==> files_of(Some("file"@), content)[0].name == Some(n)) && (forall|n: Seq<char>|
            #[trigger]
            says(content, "mime_type"@, n) ==> files_of(Some("file"@), content)[0].mime_type == Some(
                n,
            )),
{
}

/// The size of a file is what the content says, under the first of its names.
pub proof fn lemma_file_sizes(content: Tree, key: Seq<char>, n: u64)
    requires
        says(content, "file_key"@, key),
        member(content, "file_size"@) == Some(Tree::Unsigned(n)) || (member(
            content,
            "file_size"@,
        ) is None && member(content, "size"@) == Some(Tree::Unsigned(n))) || (member(
            content,
            "file_size"@,
        ) is None && member(content, "size"@) is None && member(content, "size_bytes"@) == Some(
            Tree::Unsigned(n),
        )),
    ensures
        files_of(Some("file"@), content)[0].size_bytes == Some(n),
{
}

// ---------------------------------------------------------------------------
// Events
// ---------------------------------------------------------------------------

/// An event is a message just where it has an identifier, is of the kind of received
/// messages and holds a message.
pub proof fn lemma_events_that_are_messages(
    raw: Tree,
    content: Tree,
    digest: Option<Seq<char>>,
    provider_id: Seq<char>,
    now_ms: u64,
    header: Tree,
    event: Tree,
    message: Tree,
    id: Seq<char>,
)
    requires
        member(raw, "header"@) == Some(header),
        member(raw, "event"@) == Some(event),
        member(event, "message"@) == Some(message),
        says(header, "event_id"@, id),
        says(header, "event_type"@, "im.message.receive_v1"@),
    ensures
        feishu_event_of(raw, content, digest, provider_id, now_ms) matches Some(e) && e.event_id
            == id && e.provider_id == provider_id && e.received_at == now_ms && e.raw_digest
            == digest && e.event_type == "message.receive"@ && e.provider_type
            == ImProviderType::Feishu && (e.message matches Some(m) && m.raw_content == Some(content)
            && m.text == message_text_of(content, mentions_of(message)) && m.mentions
            == mentions_of(message)) && (forall|t: Seq<char>| #[trigger]
            says(message, "chat_id"@, t) ==> e.source.chat_id == Some(t)) && (forall|t: Seq<char>|
            #[trigger]
            says(message, "chat_type"@, t) ==> e.source.chat_type == Some(t)) && (forall|
            t: Seq<char>,
        | #[trigger]
            says(message, "message_id"@, t) ==> e.source.message_id == Some(t)) && (forall|
            t: Seq<char>,
        | #[trigger]
            says(message, "message_type"@, t) ==> e.message->Some_0.raw_type == Some(t)
                && e.message->Some_0.images == images_of(Some(t), content)
                && e.message->Some_0.files == files_of(Some(t), content)),
{
}

/// Where a message stands in a conversation: names without words are none.
pub proof fn lemma_threads_of_messages(
    raw: Tree,
    content: Tree,
    digest: Option<Seq<char>>,
    provider_id: Seq<char>,
    now_ms: u64,
    event: Tree,
    message: Tree,
    t: Seq<char>,
)
    requires
        member(raw, "event"@) == Some(event),
        member(event, "message"@) == Some(message),
        feishu_event_of(raw, content, digest, provider_id, now_ms) is Some,
    ensures
        ({
            let m = feishu_event_of(
                raw,
                content,
                digest,
                provider_id,
                now_ms,
            )->Some_0.message->Some_0;
            let named = if blank(t) {
                None::<Seq<char>>
            } else {
                Some(trimmed(t))
            };
            &&& says(message, "root_id"@, t) ==> m.root_id == named
            &&& says(message, "parent_id"@, t) ==> m.parent_id == named
            &&& says(message, "thread_id"@, t) ==> m.thread_id == named
            &&& m.reply_to is None
            &&& m.create_time == number_of(member(message, "create_time"@))
            &&& m.update_time == number_of(member(message, "update_time"@))
        }),
{
}

/// Who sent a message: the open identifier, else the user identifier.
pub proof fn lemma_senders(
    raw: Tree,
    content: Tree,
    digest: Option<Seq<char>>,
    provider_id: Seq<char>,
    now_ms: u64,
    event: Tree,
    sender: Tree,
    ids: Tree,
    t: Seq<char>,
)
    requires
        member(raw, "event"@) == Some(event),
        member(event, "sender"@) == Some(sender),
        member(sender, "sender_id"@) == Some(ids),
        feishu_event_of(raw, content, digest, provider_id, now_ms) is Some,
    ensures
        ({
            let source = feishu_event_of(
                raw,
                content,
                digest,
                provider_id,
                now_ms,
            )->Some_0.source;
            &&& says(ids, "open_id"@, t) ==> source.user_id == Some(t)
            &&& member(ids, "open_id"@) is None && says(ids, "user_id"@, t) ==> source.user_id
                == Some(t)
            &&& says(sender, "sender_type"@, t) ==> source.sender_type == Some(t)
            &&& source.user_name is None
        }),
{
}

/// Anything else is no message.
pub proof fn lemma_events_that_are_none(
    raw: Tree,
    content: Tree,
    digest: Option<Seq<char>>,
    provider_id: Seq<char>,
    now_ms: u64,
)
    requires
        member_of(member(raw, "header"@), "event_id"@) is None || member_of(
            member(raw, "header"@),
            "event_type"@,
        ) != Some(Tree::Text("im.message.receive_v1"@)) || member_of(
            member(raw, "event"@),
            "message"@,
        ) is None,
    ensures
        feishu_event_of(raw, content, digest, provider_id, now_ms) is None,
{
}

/// The content of a message is the JSON that it holds as text, and an empty object
/// where it holds none.
pub proof fn lemma_contents(raw: Tree, event: Tree, message: Tree, text: Seq<char>)
    requires
        member(raw, "event"@) == Some(event),
        member(event, "message"@) == Some(message),
    ensures
        says(message, "content"@, text) && json_of_text(text) is Some ==> content_of(raw)
            == json_of_text(text)->Some_0,
        says(message, "content"@, text) && json_of_text(text) is None ==> content_of(raw)
            == Tree::Object(Seq::empty()),
        member(message, "content"@) is None ==> content_of(raw) == Tree::Object(Seq::empty()),
{
}

/// Times are numbers, or numbers written as text.
pub proof fn lemma_times(n: u64)
    ensures
        number_of(Some(Tree::Unsigned(n))) == Some(n),
        number_of(Some(Tree::Text(crate::text::decimal(n as nat)))) == Some(n),
        number_of(Some(Tree::Bool(true))) is None,
        number_of(None) is None,
{
    crate::text_laws::lemma_numbers_are_read_back(n as nat, u64::MAX as nat);
}

/// A sign of life is no message; a click that cannot be taken is rejected with its
/// reason, one that can goes before the message, and what is neither is ignored.
pub proof fn lemma_incoming_values(
    raw: Tree,
    action: Result<Option<ImEventView>, Seq<char>>,
    event: Option<ImEventView>,
)
    ensures
        says(raw, "type"@, "pong"@) || says(raw, "type"@, "heartbeat"@) ==> ws_message_of(
            raw,
            action,
            event,
        ) == WsMessageView::Heartbeat,
        !says(raw, "type"@, "pong"@) && !says(raw, "type"@, "heartbeat"@) ==> (match action {
            Err(e) => ws_message_of(raw, action, event) == WsMessageView::Rejected(e),
            Ok(Some(e)) => ws_message_of(raw, action, event) == WsMessageView::Event(e),
            Ok(None) => (event matches Some(e) ==> ws_message_of(raw, action, event)
                == WsMessageView::Event(e)) && (event is None ==> ws_message_of(raw, action, event)
                == WsMessageView::Ignored),
        }),
{
}

/// The kind of a file may be under its other name.
pub proof fn lemma_kinds_of_files_by_their_other_name(content: Tree, key: Seq<char>, n: Seq<char>)
    requires
        says(content, "file_key"@, key),
        member(content, "mime_type"@) is None,
    ensures
        says(content, "mimeType"@, n) ==> files_of(Some("file"@), content)[0].mime_type == Some(n),
        member(content, "mimeType"@) is None ==> files_of(
            Some("file"@),
            content,
        )[0].mime_type is None,
        member(content, "file_name"@) is None && member(content, "name"@) is None ==> files_of(
            Some("file"@),
            content,
        )[0].name is None,
{
}

/// Messages without a list of mentions mention nobody.
pub proof fn lemma_messages_without_mentions(message: Tree)
    ensures
        member(message, "mentions"@) is None ==> mentions_of(message).len() == 0,
{
}

} // verus!
