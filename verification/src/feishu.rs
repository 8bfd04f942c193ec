//! Messages of Feishu: reading what a user sent, and what is sent back.

use vstd::prelude::*;
use vstd::string::*;

use crate::agent_config::{clean_optional_string, cleaned};
use crate::card_action::{card_action, click_choice, normalize_feishu_card_action};
use crate::digest::{raw_digest, raw_digest_of};
use crate::im_event::{
    event_view, file_views, image_views, mention_views, FileView, ImEvent, ImEventMessage,
    ImEventSource, ImEventView, ImFileAttachment, ImImageAttachment, ImImageSource, ImMention,
    ImProviderType, ImageView, MentionView, MessageView, SourceView,
};
use crate::json::{
    find_member, first_of, json_object, json_of_text, lemma_list_view, lemma_object_view, member,
    member_of, members, opt_tree, parse_json, tree_list, tree_text, tree_u64, trees, Json, Tree,
};
use crate::text::{
    join, joined, opt, owned, same, texts, trim, trimmed, unsigned_value, parse_unsigned,
};

verus! {

broadcast use vstd::string::group_string_axioms;

// ---------------------------------------------------------------------------
// Images in a message
// ---------------------------------------------------------------------------

/// A list of a text that may be missing.
pub open spec fn one_or_none(t: Option<Seq<char>>) -> Seq<Seq<char>> {
    match t {
        Some(s) => seq![s],
        None => Seq::empty(),
    }
}

/// The images that a value names, in the order in which they stand.
pub open spec fn image_keys(t: Tree) -> Seq<Seq<char>>
    decreases t,
{
    match t {
        Tree::Object(m) => {
            proof {
                assert(decreases_to!(t => t->Object_0));
            }
            one_or_none(tree_text(find_member(m, "image_key"@))) + member_image_keys(m)
        },
        Tree::List(items) => {
            proof {
                assert(decreases_to!(t => t->List_0));
            }
            item_image_keys(items)
        },
        _ => Seq::empty(),
    }
}

/// The images that the members of an object name.
pub open spec fn member_image_keys(m: Seq<(Seq<char>, Tree)>) -> Seq<Seq<char>>
    decreases m,
{
    if m.len() == 0 {
        Seq::empty()
    } else {
        proof {
            assert(decreases_to!(m => m.subrange(0, m.len() - 1)));
            assert(decreases_to!(m => m[m.len() - 1]));
            assert(decreases_to!(m[m.len() - 1] => m[m.len() - 1].1));
        }
        member_image_keys(m.drop_last()) + image_keys(m.last().1)
    }
}

/// The images that the items of a list name.
pub open spec fn item_image_keys(items: Seq<Tree>) -> Seq<Seq<char>>
    decreases items,
{
    if items.len() == 0 {
        Seq::empty()
    } else {
        proof {
            assert(decreases_to!(items => items.subrange(0, items.len() - 1)));
            assert(decreases_to!(items => items[items.len() - 1]));
        }
        item_image_keys(items.drop_last()) + image_keys(items.last())
    }
}

/// An image that is fetched with its message.
pub open spec fn message_image(key: Seq<char>) -> ImageView {
    ImageView {
        file_key: key,
        source: ImImageSource::MessageResource,
        mime_type: None,
        data_base64: None,
        download_url: None,
        encrypted_query_param: None,
        aes_key: None,
    }
}

/// Whether an image is among others.
pub open spec fn has_image(images: Seq<ImageView>, key: Seq<char>) -> bool {
    exists|i: int| 0 <= i < images.len() && (#[trigger] images[i]).file_key == key
}

/// The images with one more, unless it is among them.
pub open spec fn with_image(images: Seq<ImageView>, key: Seq<char>) -> Seq<ImageView> {
    if has_image(images, key) {
        images
    } else {
        images.push(message_image(key))
    }
}

/// The images with some more, each of them once.
pub open spec fn with_images(images: Seq<ImageView>, keys: Seq<Seq<char>>) -> Seq<ImageView>
    decreases keys.len(),
{
    if keys.len() == 0 {
        images
    } else {
        with_image(with_images(images, keys.drop_last()), keys.last())
    }
}

proof fn lemma_with_images_concat(
    images: Seq<ImageView>,
    a: Seq<Seq<char>>,
    b: Seq<Seq<char>>,
)
    ensures
        with_images(images, a + b) == with_images(with_images(images, a), b),
    decreases b.len(),
{
    if b.len() == 0 {
        assert(a + b =~= a);
    } else {
        lemma_with_images_concat(images, a, b.drop_last());
        assert((a + b).drop_last() =~= a + b.drop_last());
        assert((a + b).last() == b.last());
    }
}

fn make_image(key: &str) -> (r: ImImageAttachment)
    ensures
        r@ == message_image(key@),
{
    ImImageAttachment {
        file_key: owned(key),
        source: ImImageSource::MessageResource,
        mime_type: None,
        data_base64: None,
        download_url: None,
        encrypted_query_param: None,
        aes_key: None,
    }
}

fn add_image(images: &mut Vec<ImImageAttachment>, key: &str)
    ensures
        image_views(final(images)@) == with_image(image_views(old(images)@), key@),
{
    let ghost before = image_views(images@);
    let mut i: usize = 0;
    while i < images.len()
        invariant
            i <= images@.len(),
            before == image_views(images@),
            before == image_views(old(images)@),
            forall|k: int| 0 <= k < i ==> (#[trigger] before[k]).file_key != key@,
        decreases images@.len() - i,
    {
        if same(images[i].file_key.as_str(), key) {
            proof {
                assert(before[i as int].file_key == key@);
            }
            return ;
        }
        i = i + 1;
    }
    images.push(make_image(key));
    proof {
        assert(image_views(images@) =~= before.push(message_image(key@)));
    }
}

/// Adds the images that a value names, each of them once.
pub fn collect_rich_text_image_keys(value: &Json, images: &mut Vec<ImImageAttachment>)
    ensures
        image_views(final(images)@) == with_images(image_views(old(images)@), image_keys(value@)),
    decreases value,
{
    let ghost start = image_views(images@);
    match value {
        Json::Object(list) => {
            proof {
                lemma_object_view(*list);
            }
            let ghost m = members(list@);
            let ghost own = one_or_none(tree_text(find_member(m, "image_key"@)));
            if let Some(v) = value.get("image_key") {
                if let Some(key) = v.as_str() {
                    add_image(images, key);
                    proof {
                        assert(seq![key@].drop_last() =~= Seq::<Seq<char>>::empty());
                        assert(with_images(start, Seq::<Seq<char>>::empty()) == start);
                        assert(with_images(start, seq![key@]) == with_image(start, key@));
                    }
                }
            }
            proof {
                assert(image_views(images@) == with_images(start, own));
                assert(own + member_image_keys(m.take(0)) =~= own);
            }
            let mut i: usize = 0;
            while i < list.len()
                invariant
                    i <= list@.len(),
                    *value == Json::Object(*list),
                    m == members(list@),
                    image_views(images@) == with_images(
                        start,
                        own + member_image_keys(m.take(i as int)),
                    ),
                decreases list@.len() - i,
            {
                proof {
                    assert(decreases_to!(value => value->Object_0));
                    assert(decreases_to!(*list => list@[i as int]));
                    assert(decreases_to!(list@[i as int] => list@[i as int].1));
                    assert(m.take(i + 1).drop_last() =~= m.take(i as int));
                    assert(m.take(i + 1).last() == (list@[i as int].0@, list@[i as int].1@));
                    let before = own + member_image_keys(m.take(i as int));
                    lemma_with_images_concat(start, before, image_keys(list@[i as int].1@));
                    assert(own + member_image_keys(m.take(i + 1)) =~= before + image_keys(
                        list@[i as int].1@,
                    ));
                }
                collect_rich_text_image_keys(&list[i].1, images);
                i = i + 1;
            }
            proof {
                assert(m.take(i as int) =~= m);
            }
        },
        Json::List(items) => {
            proof {
                lemma_list_view(*items);
            }
            let ghost all = trees(items@);
            let mut i: usize = 0;
            proof {
                assert(item_image_keys(all.take(0)) =~= Seq::empty());
            }
            while i < items.len()
                invariant
                    i <= items@.len(),
                    *value == Json::List(*items),
                    all == trees(items@),
                    image_views(images@) == with_images(
                        start,
                        item_image_keys(all.take(i as int)),
                    ),
                decreases items@.len() - i,
            {
                proof {
                    assert(decreases_to!(value => value->List_0));
                    assert(decreases_to!(*items => items@[i as int]));
                    assert(all.take(i + 1).drop_last() =~= all.take(i as int));
                    assert(all.take(i + 1).last() == items@[i as int]@);
                    lemma_with_images_concat(
                        start,
                        item_image_keys(all.take(i as int)),
                        image_keys(items@[i as int]@),
                    );
                }
                collect_rich_text_image_keys(&items[i], images);
                i = i + 1;
            }
            proof {
                assert(all.take(i as int) =~= all);
            }
        },
        _ => {},
    }
}

/// Whether no two images have the same key.
pub open spec fn images_differ(images: Seq<ImageView>) -> bool {
    forall|i: int, j: int|
        0 <= i < j < images.len() ==> (#[trigger] images[i]).file_key != (
        #[trigger] images[j]).file_key
}

/// No image is collected twice, and every image that a value names is among those
/// collected.
pub proof fn lemma_images_collected_once(images: Seq<ImageView>, keys: Seq<Seq<char>>)
    requires
        images_differ(images),
    ensures
        images_differ(with_images(images, keys)),
        forall|i: int| 0 <= i < keys.len() ==> has_image(with_images(images, keys), #[trigger] keys[i]),
    decreases keys.len(),
{
    if keys.len() > 0 {
        let rest = keys.drop_last();
        lemma_images_collected_once(images, rest);
        let before = with_images(images, rest);
        let after = with_images(images, keys);
        assert forall|i: int, j: int| 0 <= i < j < after.len() implies (
        #[trigger] after[i]).file_key != (#[trigger] after[j]).file_key by {
            if !has_image(before, keys.last()) {
                assert(after[i] == before[i]);
                if j < before.len() {
                    assert(after[j] == before[j]);
                }
            }
        }
        assert forall|i: int| 0 <= i < keys.len() implies has_image(after, #[trigger] keys[i]) by {
            if i < rest.len() {
                assert(rest[i] == keys[i]);
                let k = choose|k: int|
                    0 <= k < before.len() && (#[trigger] before[k]).file_key == keys[i];
                assert(after[k] == before[k]);
            } else if !has_image(before, keys.last()) {
                assert(after[before.len() as int].file_key == keys[i]);
            }
        }
    }
}

// ---------------------------------------------------------------------------
// The text of a message
// ---------------------------------------------------------------------------

/// The placeholder of the first mention of a user with an id.
pub open spec fn placeholder_by_id(mentions: Seq<MentionView>, id: Seq<char>) -> Option<Seq<char>>
    decreases mentions.len(),
{
    if mentions.len() == 0 {
        None
    } else if trimmed(mentions[0].key).len() > 0 && mentions[0].open_id == Some(id) {
        Some(mentions[0].key)
    } else {
        placeholder_by_id(mentions.drop_first(), id)
    }
}

/// The placeholder of the first mention of a user with a name.
pub open spec fn placeholder_by_name(
    mentions: Seq<MentionView>,
    name: Seq<char>,
) -> Option<Seq<char>>
    decreases mentions.len(),
{
    if mentions.len() == 0 {
        None
    } else if trimmed(mentions[0].key).len() > 0 && mentions[0].name == Some(name) {
        Some(mentions[0].key)
    } else {
        placeholder_by_name(mentions.drop_first(), name)
    }
}

/// The placeholder of the user that a node of rich text mentions: by the id, and
/// where that finds none, by the name.
pub open spec fn node_placeholder(
    node: Tree,
    mentions: Seq<MentionView>,
) -> Option<Seq<char>> {
    let id = cleaned(tree_text(first_of(member(node, "open_id"@), member(node, "user_id"@))));
    let name = cleaned(tree_text(member(node, "user_name"@)));
    first_of(
        match id {
            Some(i) => placeholder_by_id(mentions, i),
            None => None,
        },
        match name {
            Some(n) => placeholder_by_name(mentions, n),
            None => None,
        },
    )
}

/// The text that a node of rich text adds by itself.
pub open spec fn node_text(node: Tree, mentions: Seq<MentionView>) -> Option<Seq<char>> {
    let tag = tree_text(member(node, "tag"@));
    if tag == Some("text"@) || tag == Some("a"@) || tag == Some("code_block"@) {
        tree_text(member(node, "text"@))
    } else if tag == Some("at"@) {
        first_of(
            node_placeholder(node, mentions),
            tree_text(first_of(member(node, "user_name"@), member(node, "user_id"@))),
        )
    } else if tag == Some("br"@) {
        Some("\n"@)
    } else {
        None
    }
}

/// The texts of a value, in the order in which they stand.
pub open spec fn text_nodes(t: Tree, mentions: Seq<MentionView>) -> Seq<Seq<char>>
    decreases t,
{
    match t {
        Tree::Object(m) => {
            proof {
                assert(decreases_to!(t => t->Object_0));
            }
            one_or_none(node_text(t, mentions)) + member_texts(m, mentions)
        },
        Tree::List(items) => {
            proof {
                assert(decreases_to!(t => t->List_0));
            }
            item_texts(items, mentions)
        },
        _ => Seq::empty(),
    }
}

/// The texts of the members of an object.
pub open spec fn member_texts(
    m: Seq<(Seq<char>, Tree)>,
    mentions: Seq<MentionView>,
) -> Seq<Seq<char>>
    decreases m,
{
    if m.len() == 0 {
        Seq::empty()
    } else {
        proof {
            assert(decreases_to!(m => m.subrange(0, m.len() - 1)));
            assert(decreases_to!(m => m[m.len() - 1]));
            assert(decreases_to!(m[m.len() - 1] => m[m.len() - 1].1));
        }
        member_texts(m.drop_last(), mentions) + text_nodes(m.last().1, mentions)
    }
}

/// The texts of the items of a list.
pub open spec fn item_texts(items: Seq<Tree>, mentions: Seq<MentionView>) -> Seq<Seq<char>>
    decreases items,
{
    if items.len() == 0 {
        Seq::empty()
    } else {
        proof {
            assert(decreases_to!(items => items.subrange(0, items.len() - 1)));
            assert(decreases_to!(items => items[items.len() - 1]));
        }
        item_texts(items.drop_last(), mentions) + text_nodes(items.last(), mentions)
    }
}

/// The text of a message: its plain text, or the texts of its rich text one behind
/// the other.
pub open spec fn message_text_of(content: Tree, mentions: Seq<MentionView>) -> Seq<char> {
    match tree_text(member(content, "text"@)) {
        Some(t) => t,
        None => trimmed(joined(text_nodes(content, mentions), ""@)),
    }
}

fn find_by_id(mentions: &Vec<ImMention>, id: &str) -> (r: Option<String>)
    ensures
        opt(r) == placeholder_by_id(mention_views(mentions@), id@),
{
    let ghost all = mention_views(mentions@);
    let mut i: usize = 0;
    proof {
        assert(all.skip(0) =~= all);
    }
    while i < mentions.len()
        invariant
            i <= mentions@.len(),
            all == mention_views(mentions@),
            placeholder_by_id(all.skip(i as int), id@) == placeholder_by_id(all, id@),
        decreases mentions@.len() - i,
    {
        proof {
            assert(all.skip(i as int)[0] == mentions@[i as int]@);
            assert(all.skip(i as int).drop_first() =~= all.skip(i + 1));
        }
        let m = &mentions[i];
        if !trim(m.key.as_str()).is_empty() {
            if let Some(known) = &m.open_id {
                if same(known.as_str(), id) {
                    return Some(m.key.clone());
                }
            }
        }
        i = i + 1;
    }
    proof {
        assert(all.skip(i as int).len() == 0);
    }
    None
}

fn find_by_name(mentions: &Vec<ImMention>, name: &str) -> (r: Option<String>)
    ensures
        opt(r) == placeholder_by_name(mention_views(mentions@), name@),
{
    let ghost all = mention_views(mentions@);
    let mut i: usize = 0;
    proof {
        assert(all.skip(0) =~= all);
    }
    while i < mentions.len()
        invariant
            i <= mentions@.len(),
            all == mention_views(mentions@),
            placeholder_by_name(all.skip(i as int), name@) == placeholder_by_name(all, name@),
        decreases mentions@.len() - i,
    {
        proof {
            assert(all.skip(i as int)[0] == mentions@[i as int]@);
            assert(all.skip(i as int).drop_first() =~= all.skip(i + 1));
        }
        let m = &mentions[i];
        if !trim(m.key.as_str()).is_empty() {
            if let Some(known) = &m.name {
                if same(known.as_str(), name) {
                    return Some(m.key.clone());
                }
            }
        }
        i = i + 1;
    }
    proof {
        assert(all.skip(i as int).len() == 0);
    }
    None
}

/// The first of two members that is there.
fn get_either<'a>(value: &'a Json, key: &str, other: &str) -> (r: Option<&'a Json>)
    ensures
        opt_tree(r) == first_of(member(value@, key@), member(value@, other@)),
{
    match value.get(key) {
        Some(v) => Some(v),
        None => value.get(other),
    }
}

/// The text of a value that may be missing.
fn text_of<'a>(value: Option<&'a Json>) -> (r: Option<&'a str>)
    ensures
        crate::json::opt_str(r) == tree_text(opt_tree(value)),
{
    match value {
        Some(v) => v.as_str(),
        None => None,
    }
}

/// The owned text of a value that may be missing.
fn owned_text_of(value: Option<&Json>) -> (r: Option<String>)
    ensures
        opt(r) == tree_text(opt_tree(value)),
{
    match text_of(value) {
        Some(s) => Some(owned(s)),
        None => None,
    }
}

pub fn rich_text_mention_placeholder(node: &Json, mentions: &Vec<ImMention>) -> (r: Option<String>)
    ensures
        opt(r) == node_placeholder(node@, mention_views(mentions@)),
{
    if let Some(id) = clean_optional_string(text_of(get_either(node, "open_id", "user_id"))) {
        if let Some(key) = find_by_id(mentions, id.as_str()) {
            return Some(key);
        }
    }
    match clean_optional_string(text_of(node.get("user_name"))) {
        Some(name) => find_by_name(mentions, name.as_str()),
        None => None,
    }
}

fn own_node_text(node: &Json, mentions: &Vec<ImMention>) -> (r: Option<String>)
    ensures
        opt(r) == node_text(node@, mention_views(mentions@)),
{
    proof {
        reveal_strlit("text");
        reveal_strlit("a");
        reveal_strlit("code_block");
        reveal_strlit("at");
        reveal_strlit("br");
    }
    match text_of(node.get("tag")) {
        Some(tag) => {
            if same(tag, "text") || same(tag, "a") || same(tag, "code_block") {
                owned_text_of(node.get("text"))
            } else if same(tag, "at") {
                match rich_text_mention_placeholder(node, mentions) {
                    Some(key) => Some(key),
                    None => owned_text_of(get_either(node, "user_name", "user_id")),
                }
            } else if same(tag, "br") {
                Some(owned("\n"))
            } else {
                None
            }
        },
        None => None,
    }
}

/// Adds the texts of a value.
pub fn collect_feishu_text_nodes(value: &Json, mentions: &Vec<ImMention>, parts: &mut Vec<String>)
    ensures
        texts(final(parts)@) == texts(old(parts)@) + text_nodes(
            value@,
            mention_views(mentions@),
        ),
    decreases value,
{
    let ghost start = texts(parts@);
    let ghost mv = mention_views(mentions@);
    match value {
        Json::Object(list) => {
            proof {
                lemma_object_view(*list);
            }
            let ghost m = members(list@);
            let ghost own = one_or_none(node_text(value@, mv));
            match own_node_text(value, mentions) {
                Some(t) => {
                    let ghost put = t@;
                    parts.push(t);
                    proof {
                        assert(texts(parts@) =~= start + seq![put]);
                    }
                },
                None => {
                    proof {
                        assert(texts(parts@) =~= start + own);
                    }
                },
            }
            proof {
                assert(start + own + member_texts(m.take(0), mv) =~= start + own);
            }
            let mut i: usize = 0;
            while i < list.len()
                invariant
                    i <= list@.len(),
                    *value == Json::Object(*list),
                    m == members(list@),
                    mv == mention_views(mentions@),
                    texts(parts@) == start + own + member_texts(m.take(i as int), mv),
                decreases list@.len() - i,
            {
                proof {
                    assert(decreases_to!(value => value->Object_0));
                    assert(decreases_to!(*list => list@[i as int]));
                    assert(decreases_to!(list@[i as int] => list@[i as int].1));
                    assert(m.take(i + 1).drop_last() =~= m.take(i as int));
                    assert(m.take(i + 1).last() == (list@[i as int].0@, list@[i as int].1@));
                    assert(start + own + member_texts(m.take(i + 1), mv) =~= start + own
                        + member_texts(m.take(i as int), mv) + text_nodes(
                        list@[i as int].1@,
                        mv,
                    ));
                }
                collect_feishu_text_nodes(&list[i].1, mentions, parts);
                i = i + 1;
            }
            proof {
                assert(m.take(i as int) =~= m);
                assert(start + (own + member_texts(m, mv)) =~= start + own + member_texts(m, mv));
            }
        },
        Json::List(items) => {
            proof {
                lemma_list_view(*items);
            }
            let ghost all = trees(items@);
            let mut i: usize = 0;
            proof {
                assert(start + item_texts(all.take(0), mv) =~= start);
            }
            while i < items.len()
                invariant
                    i <= items@.len(),
                    *value == Json::List(*items),
                    all == trees(items@),
                    mv == mention_views(mentions@),
                    texts(parts@) == start + item_texts(all.take(i as int), mv),
                decreases items@.len() - i,
            {
                proof {
                    assert(decreases_to!(value => value->List_0));
                    assert(decreases_to!(*items => items@[i as int]));
                    assert(all.take(i + 1).drop_last() =~= all.take(i as int));
                    assert(all.take(i + 1).last() == items@[i as int]@);
                    assert(start + item_texts(all.take(i + 1), mv) =~= start + item_texts(
                        all.take(i as int),
                        mv,
                    ) + text_nodes(items@[i as int]@, mv));
                }
                collect_feishu_text_nodes(&items[i], mentions, parts);
                i = i + 1;
            }
            proof {
                assert(all.take(i as int) =~= all);
            }
        },
        _ => {
            proof {
                assert(start + text_nodes(value@, mv) =~= start);
            }
        },
    }
}

pub fn extract_feishu_message_text(value: &Json, mentions: &Vec<ImMention>) -> (r: String)
    ensures
        r@ == message_text_of(value@, mention_views(mentions@)),
{
    if let Some(t) = text_of(value.get("text")) {
        return owned(t);
    }
    let mut parts: Vec<String> = Vec::new();
    collect_feishu_text_nodes(value, mentions, &mut parts);
    proof {
        assert(texts(parts@) =~= text_nodes(value@, mention_views(mentions@)));
    }
    owned(trim(join(&parts, "").as_str()))
}

/// The names of the members of an object.
pub fn json_object_keys(value: &Json) -> (r: Vec<String>)
    ensures
        texts(r@) == (match value@ {
            Tree::Object(m) => m.map_values(|e: (Seq<char>, Tree)| e.0),
            _ => Seq::empty(),
        }),
{
    let mut out: Vec<String> = Vec::new();
    match value {
        Json::Object(list) => {
            proof {
                lemma_object_view(*list);
            }
            let mut i: usize = 0;
            while i < list.len()
                invariant
                    i <= list@.len(),
                    out@.len() == i,
                    forall|k: int| 0 <= k < i ==> (#[trigger] out@[k])@ == list@[k].0@,
                decreases list@.len() - i,
            {
                out.push(list[i].0.clone());
                i = i + 1;
            }
            proof {
                assert(texts(out@) =~= members(list@).map_values(|e: (Seq<char>, Tree)| e.0));
            }
        },
        _ => {
            proof {
                assert(texts(out@) =~= Seq::empty());
            }
        },
    }
    out
}

// ---------------------------------------------------------------------------
// Events
// ---------------------------------------------------------------------------

/// A number that is written as a number or as a text.
pub open spec fn number_of(t: Option<Tree>) -> Option<u64> {
    match tree_u64(t) {
        Some(n) => Some(n),
        None => match tree_text(t) {
            Some(s) => match unsigned_value(s, u64::MAX as nat) {
                Some(n) => Some(n as u64),
                None => None,
            },
            None => None,
        },
    }
}

pub fn json_u64_from_string_or_number(value: Option<&Json>) -> (r: Option<u64>)
    ensures
        r == number_of(opt_tree(value)),
{
    match value {
        Some(v) => match v.as_u64() {
            Some(n) => Some(n),
            None => match v.as_str() {
                Some(s) => parse_unsigned(s, u64::MAX),
                None => None,
            },
        },
        None => None,
    }
}

/// Someone who is mentioned.
pub open spec fn mention_of(t: Tree) -> MentionView {
    MentionView {
        key: match tree_text(member(t, "key"@)) {
            Some(k) => k,
            None => Seq::empty(),
        },
        open_id: tree_text(member_of(member(t, "id"@), "open_id"@)),
        name: tree_text(member(t, "name"@)),
        tenant_key: tree_text(member(t, "tenant_key"@)),
        is_bot: false,
    }
}

/// Those who are mentioned in a message.
pub open spec fn mentions_of(message: Tree) -> Seq<MentionView> {
    match tree_list(member(message, "mentions"@)) {
        Some(items) => items.map_values(|t: Tree| mention_of(t)),
        None => Seq::empty(),
    }
}

fn get_in<'a>(value: Option<&'a Json>, key: &str) -> (r: Option<&'a Json>)
    ensures
        opt_tree(r) == member_of(opt_tree(value), key@),
{
    match value {
        Some(v) => v.get(key),
        None => None,
    }
}

fn read_mentions(message: &Json) -> (r: Vec<ImMention>)
    ensures
        mention_views(r@) == mentions_of(message@),
{
    let mut out: Vec<ImMention> = Vec::new();
    if let Some(v) = message.get("mentions") {
        if let Some(items) = v.as_list() {
            let ghost all = trees(items@);
            let mut i: usize = 0;
            while i < items.len()
                invariant
                    i <= items@.len(),
                    all == trees(items@),
                    out@.len() == i,
                    forall|k: int| 0 <= k < i ==> (#[trigger] out@[k])@ == mention_of(all[k]),
                decreases items@.len() - i,
            {
                let item = &items[i];
                proof {
                    assert(all[i as int] == item@);
                }
                out.push(
                    ImMention {
                        key: match owned_text_of(item.get("key")) {
                            Some(k) => k,
                            None => String::new(),
                        },
                        open_id: owned_text_of(get_in(item.get("id"), "open_id")),
                        name: owned_text_of(item.get("name")),
                        tenant_key: owned_text_of(item.get("tenant_key")),
                        is_bot: false,
                    },
                );
                i = i + 1;
            }
            proof {
                assert(mention_views(out@) =~= all.map_values(|t: Tree| mention_of(t)));
            }
            return out;
        }
    }
    proof {
        assert(mention_views(out@) =~= Seq::empty());
    }
    out
}

/// The images of a message: that of an image message, then those that its content
/// names.
pub open spec fn images_of(message_type: Option<Seq<char>>, content: Tree) -> Seq<ImageView> {
    let first = if message_type == Some("image"@) {
        match tree_text(member(content, "image_key"@)) {
            Some(k) => seq![message_image(k)],
            None => Seq::empty(),
        }
    } else {
        Seq::empty()
    };
    with_images(first, image_keys(content))
}

/// The file of a file message.
pub open spec fn files_of(message_type: Option<Seq<char>>, content: Tree) -> Seq<FileView> {
    if message_type == Some("file"@) {
        match tree_text(member(content, "file_key"@)) {
            Some(k) => seq![
                FileView {
                    file_key: k,
                    name: tree_text(
                        first_of(member(content, "file_name"@), member(content, "name"@)),
                    ),
                    mime_type: tree_text(
                        first_of(member(content, "mime_type"@), member(content, "mimeType"@)),
                    ),
                    size_bytes: tree_u64(
                        first_of(
                            first_of(member(content, "file_size"@), member(content, "size"@)),
                            member(content, "size_bytes"@),
                        ),
                    ),
                    data_base64: None,
                    download_url: None,
                },
            ],
            None => Seq::empty(),
        }
    } else {
        Seq::empty()
    }
}

fn is_type(message_type: &Option<String>, expected: &str) -> (r: bool)
    ensures
        r == (opt(*message_type) == Some(expected@)),
{
    match message_type {
        Some(t) => same(t.as_str(), expected),
        None => false,
    }
}

fn read_images(message_type: &Option<String>, content: &Json) -> (r: Vec<ImImageAttachment>)
    ensures
        image_views(r@) == images_of(opt(*message_type), content@),
{
    let mut images: Vec<ImImageAttachment> = Vec::new();
    proof {
        assert(image_views(images@) =~= Seq::empty());
    }
    if is_type(message_type, "image") {
        if let Some(key) = text_of(content.get("image_key")) {
            images.push(make_image(key));
            proof {
                assert(image_views(images@) =~= seq![message_image(key@)]);
            }
        }
    }
    collect_rich_text_image_keys(content, &mut images);
    images
}

fn read_files(message_type: &Option<String>, content: &Json) -> (r: Vec<ImFileAttachment>)
    ensures
        file_views(r@) == files_of(opt(*message_type), content@),
{
    let mut files: Vec<ImFileAttachment> = Vec::new();
    if is_type(message_type, "file") {
        if let Some(key) = owned_text_of(content.get("file_key")) {
            let size = match get_either(content, "file_size", "size") {
                Some(v) => Some(v),
                None => content.get("size_bytes"),
            };
            files.push(
                ImFileAttachment {
                    file_key: key,
                    name: owned_text_of(get_either(content, "file_name", "name")),
                    mime_type: owned_text_of(get_either(content, "mime_type", "mimeType")),
                    size_bytes: match size {
                        Some(v) => v.as_u64(),
                        None => None,
                    },
                    data_base64: None,
                    download_url: None,
                },
            );
        }
    }
    proof {
        assert(file_views(files@) =~= files_of(opt(*message_type), content@));
    }
    files
}

/// The event that a notification of Feishu stands for: a message that was
/// received. Notifications of anything else stand for none. `content` is what the
/// content of the message was read as, and `digest` tells the notification apart
/// from others.
pub open spec fn feishu_event_of(
    raw: Tree,
    content: Tree,
    digest: Option<Seq<char>>,
    provider_id: Seq<char>,
    now_ms: u64,
) -> Option<ImEventView> {
    let header = member(raw, "header"@);
    let event_id = tree_text(member_of(header, "event_id"@));
    let event = member(raw, "event"@);
    let message = member_of(event, "message"@);
    let sender = member_of(event, "sender"@);
    let sender_id = member_of(sender, "sender_id"@);
    if event_id is None || tree_text(member_of(header, "event_type"@)) != Some(
        "im.message.receive_v1"@,
    ) || message is None {
        None
    } else {
        let m = message->Some_0;
        let message_type = tree_text(member(m, "message_type"@));
        let mentions = mentions_of(m);
        Some(
            ImEventView {
                event_id: event_id->Some_0,
                provider_id,
                provider_type: ImProviderType::Feishu,
                event_type: "message.receive"@,
                source: SourceView {
                    chat_id: tree_text(member(m, "chat_id"@)),
                    chat_type: tree_text(member(m, "chat_type"@)),
                    user_id: tree_text(
                        first_of(
                            member_of(sender_id, "open_id"@),
                            member_of(sender_id, "user_id"@),
                        ),
                    ),
                    user_name: None,
                    sender_type: tree_text(member_of(sender, "sender_type"@)),
                    message_id: tree_text(member(m, "message_id"@)),
                },
                message: Some(
                    MessageView {
                        text: message_text_of(content, mentions),
                        mentions,
                        images: images_of(message_type, content),
                        files: files_of(message_type, content),
                        reply_to: None,
                        raw_type: message_type,
                        raw_content: Some(content),
                        create_time: number_of(member(m, "create_time"@)),
                        update_time: number_of(member(m, "update_time"@)),
                        root_id: cleaned(tree_text(member(m, "root_id"@))),
                        parent_id: cleaned(tree_text(member(m, "parent_id"@))),
                        thread_id: cleaned(tree_text(member(m, "thread_id"@))),
                    },
                ),
                received_at: now_ms,
                raw_digest: digest,
            },
        )
    }
}

/// Reads a notification, given what the content of its message was read as and
/// what tells it apart from others.
pub fn feishu_event(
    raw: &Json,
    content: Json,
    digest: Option<String>,
    provider_id: &str,
    now_ms: u64,
) -> (r: Option<ImEvent>)
    ensures
        event_view(r) == feishu_event_of(raw@, content@, opt(digest), provider_id@, now_ms),
{
    let header = raw.get("header");
    let event_id = match owned_text_of(get_in(header, "event_id")) {
        Some(id) => id,
        None => {
            return None;
        },
    };
    match text_of(get_in(header, "event_type")) {
        Some(t) => {
            if !same(t, "im.message.receive_v1") {
                return None;
            }
        },
        None => {
            return None;
        },
    }
    let event = raw.get("event");
    let message = match get_in(event, "message") {
        Some(m) => m,
        None => {
            return None;
        },
    };
    let message_type = owned_text_of(message.get("message_type"));
    let mentions = read_mentions(message);
    let text = extract_feishu_message_text(&content, &mentions);
    let images = read_images(&message_type, &content);
    let files = read_files(&message_type, &content);
    let sender = get_in(event, "sender");
    let sender_id = get_in(sender, "sender_id");
    let user_id = match get_in(sender_id, "open_id") {
        Some(v) => owned_text_of(Some(v)),
        None => owned_text_of(get_in(sender_id, "user_id")),
    };
    Some(
        ImEvent {
            event_id,
            provider_id: owned(provider_id),
            provider_type: ImProviderType::Feishu,
            event_type: owned("message.receive"),
            source: ImEventSource {
                chat_id: owned_text_of(message.get("chat_id")),
                chat_type: owned_text_of(message.get("chat_type")),
                user_id,
                user_name: None,
                sender_type: owned_text_of(get_in(sender, "sender_type")),
                message_id: owned_text_of(message.get("message_id")),
            },
            message: Some(
                ImEventMessage {
                    text,
                    mentions,
                    images,
                    files,
                    reply_to: None,
                    raw_type: message_type,
                    raw_content: Some(content),
                    create_time: json_u64_from_string_or_number(message.get("create_time")),
                    update_time: json_u64_from_string_or_number(message.get("update_time")),
                    root_id: clean_optional_string(text_of(message.get("root_id"))),
                    parent_id: clean_optional_string(text_of(message.get("parent_id"))),
                    thread_id: clean_optional_string(text_of(message.get("thread_id"))),
                },
            ),
            received_at: now_ms,
            raw_digest: digest,
        },
    )
}

/// The content of the message of a notification: the JSON value that its text
/// holds, or an empty object.
pub open spec fn content_of(raw: Tree) -> Tree {
    match tree_text(
        member_of(member_of(member(raw, "event"@), "message"@), "content"@),
    ) {
        Some(s) => match json_of_text(s) {
            Some(t) => t,
            None => Tree::Object(Seq::empty()),
        },
        None => Tree::Object(Seq::empty()),
    }
}

pub fn read_content(raw: &Json) -> (r: Json)
    ensures
        r@ == content_of(raw@),
{
    if let Some(s) = text_of(get_in(get_in(raw.get("event"), "message"), "content")) {
        if let Some(v) = parse_json(s) {
            return v;
        }
    }
    let none: Vec<(String, Json)> = Vec::new();
    proof {
        assert(members(none@) =~= Seq::empty());
    }
    json_object(none)
}

/// Turns a notification of Feishu into the event that it stands for.
pub fn normalize_feishu_event(raw: &Json, provider_id: &str, now_ms: u64) -> (r: Option<ImEvent>)
    ensures
        event_view(r) == feishu_event_of(
            raw@,
            content_of(raw@),
            raw_digest_of(raw@),
            provider_id@,
            now_ms,
        ),
{
    let content = read_content(raw);
    let digest = raw_digest(raw);
    feishu_event(raw, content, digest, provider_id, now_ms)
}

/// What a message of the long connection comes to.
#[derive(Debug, PartialEq, Eq)]
pub enum WsMessage {
    NotJson,
    Heartbeat,
    Rejected(String),
    Ignored,
    Event(ImEvent),
}

#[verifier::ext_equal]
pub enum WsMessageView {
    NotJson,
    Heartbeat,
    Rejected(Seq<char>),
    Ignored,
    Event(ImEventView),
}

impl View for WsMessage {
    type V = WsMessageView;

    open spec fn view(&self) -> WsMessageView {
        match self {
            WsMessage::NotJson => WsMessageView::NotJson,
            WsMessage::Heartbeat => WsMessageView::Heartbeat,
            WsMessage::Rejected(e) => WsMessageView::Rejected(e@),
            WsMessage::Ignored => WsMessageView::Ignored,
            WsMessage::Event(e) => WsMessageView::Event(e@),
        }
    }
}

/// What a message comes to, given the value that it holds: heartbeats are left
/// alone, clicks are checked, and all else is read as a notification.
pub open spec fn ws_message_of(
    raw: Tree,
    action: Result<Option<ImEventView>, Seq<char>>,
    event: Option<ImEventView>,
) -> WsMessageView {
    let kind = tree_text(member(raw, "type"@));
    if kind == Some("pong"@) || kind == Some("heartbeat"@) {
        WsMessageView::Heartbeat
    } else {
        match action {
            Err(e) => WsMessageView::Rejected(e),
            Ok(Some(e)) => WsMessageView::Event(e),
            Ok(None) => match event {
                Some(e) => WsMessageView::Event(e),
                None => WsMessageView::Ignored,
            },
        }
    }
}

/// Reads the value of a message of the long connection. `reading_error` is what is
/// said of a click whose value cannot be read.
pub fn read_ws_value(
    raw: &Json,
    reading_error: &str,
    provider_id: &str,
    now_ms: u64,
) -> (r: WsMessage)
    ensures
        r@ == ws_message_of(
            raw@,
            card_action(
                raw@,
                click_choice(raw@, reading_error@),
                raw_digest_of(raw@),
                provider_id@,
                now_ms,
            ),
            feishu_event_of(
                raw@,
                content_of(raw@),
                raw_digest_of(raw@),
                provider_id@,
                now_ms,
            ),
        ),
{
    if let Some(kind) = text_of(raw.get("type")) {
        if same(kind, "pong") || same(kind, "heartbeat") {
            return WsMessage::Heartbeat;
        }
    }
    match normalize_feishu_card_action(raw, reading_error, provider_id, now_ms) {
        Err(e) => WsMessage::Rejected(e),
        Ok(Some(e)) => WsMessage::Event(e),
        Ok(None) => match normalize_feishu_event(raw, provider_id, now_ms) {
            Some(e) => WsMessage::Event(e),
            None => WsMessage::Ignored,
        },
    }
}

/// Reads a message of the long connection. `reading_error` is what is said of a
/// click whose value cannot be read.
pub fn handle_ws_message(
    text: &str,
    reading_error: &str,
    provider_id: &str,
    now_ms: u64,
) -> (r: WsMessage)
    ensures
        r@ == (match json_of_text(text@) {
            None => WsMessageView::NotJson,
            Some(raw) => ws_message_of(
                raw,
                card_action(
                    raw,
                    click_choice(raw, reading_error@),
                    raw_digest_of(raw),
                    provider_id@,
                    now_ms,
                ),
                feishu_event_of(
                    raw,
                    content_of(raw),
                    raw_digest_of(raw),
                    provider_id@,
                    now_ms,
                ),
            ),
        }),
{
    match parse_json(text) {
        None => WsMessage::NotJson,
        Some(raw) => read_ws_value(&raw, reading_error, provider_id, now_ms),
    }
}

} // verus!
