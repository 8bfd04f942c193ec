//! What choice cards are for: what a card shows, whose click is taken and what a
//! click that is taken says.

use vstd::prelude::*;

use crate::models::{effort_slash, model_slash, SlashView};
use crate::local_sessions::{resume_command_of, ResumeView};
use crate::card_action::{
    button_label, callback_value, card_action, card_expiry, card_of, choice_button, choice_column,
    choice_command_allowed, choice_elements, choice_fault, choice_in, choice_row, choice_summary,
    click_choice, click_value, BindingView, ChoiceView, OptionView,
};
use crate::im_event::ImEventView;
use crate::json::{find_member, member, member_of, Tree};
use crate::text::{decimal, joined, lowered, tidy, trimmed, words};

verus! {

broadcast use vstd::string::group_string_axioms;

/// Whether a member of an object is a text.
pub open spec fn says(t: Tree, key: Seq<char>, text: Seq<char>) -> bool {
    member(t, key) == Some(Tree::Text(text))
}

// ---------------------------------------------------------------------------
// Clicks
// ---------------------------------------------------------------------------

/// A click on a button of a card: who clicked, in which chat, on which message.
pub open spec fn clicked(
    raw: Tree,
    event_id: Seq<char>,
    operator: Seq<char>,
    chat: Seq<char>,
    message: Seq<char>,
) -> bool {
    let header = member(raw, "header"@);
    let event = member(raw, "event"@);
    let action = member_of(event, "action"@);
    let context = member_of(event, "context"@);
    &&& member_of(header, "event_type"@) == Some(Tree::Text("card.action.trigger"@))
    &&& member_of(header, "event_id"@) == Some(Tree::Text(event_id))
    &&& member_of(member_of(event, "operator"@), "open_id"@) == Some(Tree::Text(operator))
    &&& member_of(action, "tag"@) == Some(Tree::Text("button"@))
    &&& member_of(action, "value"@) is Some
    &&& member_of(context, "open_chat_id"@) == Some(Tree::Text(chat))
    &&& member_of(context, "open_message_id"@) == Some(Tree::Text(message))
    &&& trimmed(event_id).len() > 0
    &&& trimmed(operator).len() > 0
    &&& trimmed(chat).len() > 0
    &&& trimmed(message).len() > 0
}

/// What a choice must say to be taken.
pub open spec fn bound_to(
    v: ChoiceView,
    provider_id: Seq<char>,
    operator: Seq<char>,
    chat: Seq<char>,
    now_ms: u64,
) -> bool {
    &&& v.bifrost_action == "slash_choice"@
    &&& v.provider_id == provider_id
    &&& v.user_id == trimmed(operator)
    &&& v.chat_id == trimmed(chat)
    &&& v.chat_type == "p2p"@ || v.chat_type == "group"@
    &&& now_ms < v.expires_at_ms
    &&& choice_command_allowed(v.command)
}

/// A click is taken just where its choice was made for this provider, this user and
/// this chat, has not expired and holds a command that cards may send. It then says
/// the command as the user who clicked, in the chat that was clicked in.
pub proof fn lemma_clicks(
    raw: Tree,
    v: ChoiceView,
    digest: Option<Seq<char>>,
    provider_id: Seq<char>,
    now_ms: u64,
    event_id: Seq<char>,
    operator: Seq<char>,
    chat: Seq<char>,
    message: Seq<char>,
)
    requires
        clicked(raw, event_id, operator, chat, message),
    ensures
        card_action(raw, Ok(v), digest, provider_id, now_ms) is Ok <==> bound_to(
            v,
            provider_id,
            operator,
            chat,
            now_ms,
        ),
        bound_to(v, provider_id, operator, chat, now_ms) ==> (card_action(
            raw,
            Ok(v),
            digest,
            provider_id,
            now_ms,
        ) matches Ok(Some(e)) && e.event_id == trimmed(event_id) && e.provider_id == provider_id
            && e.source.user_id == Some(trimmed(operator)) && e.source.chat_id == Some(trimmed(chat))
            && e.source.chat_type == Some(v.chat_type) && e.source.sender_type == Some("user"@)
            && e.received_at == now_ms && e.raw_digest == digest && e.event_type
            == "message.receive"@ && (e.message matches Some(m) && m.text == trimmed(v.command)
            && m.raw_type == Some("interactive_callback"@))),
{
    let event = member(raw, "event"@);
    assert(event->Some_0 is Object);
    assert(member_of(event, "action"@)->Some_0 is Object);
    assert(member_of(event, "context"@)->Some_0 is Object);
}

/// What else comes in is no click, and a click whose choice cannot be read is
/// refused.
pub proof fn lemma_other_events(
    raw: Tree,
    choice: Result<ChoiceView, Seq<char>>,
    digest: Option<Seq<char>>,
    provider_id: Seq<char>,
    now_ms: u64,
    event_id: Seq<char>,
    operator: Seq<char>,
    chat: Seq<char>,
    message: Seq<char>,
)
    ensures
        member_of(member(raw, "header"@), "event_type"@) != Some(Tree::Text("card.action.trigger"@))
            ==> card_action(raw, choice, digest, provider_id, now_ms) == Ok::<
            Option<ImEventView>,
            Seq<char>,
        >(None),
        clicked(raw, event_id, operator, chat, message) ==> (choice matches Err(e) ==> card_action(
            raw,
            choice,
            digest,
            provider_id,
            now_ms,
        ) == Err::<Option<ImEventView>, Seq<char>>("invalid card action value: "@ + e)),
{
    if clicked(raw, event_id, operator, chat, message) {
        let event = member(raw, "event"@);
        assert(event->Some_0 is Object);
        assert(member_of(event, "action"@)->Some_0 is Object);
    }
}

/// A trigger that lacks one of its parts is refused, never taken.
pub proof fn lemma_incomplete_clicks(
    raw: Tree,
    choice: Result<ChoiceView, Seq<char>>,
    digest: Option<Seq<char>>,
    provider_id: Seq<char>,
    now_ms: u64,
)
    requires
        member_of(member(raw, "header"@), "event_type"@) == Some(
            Tree::Text("card.action.trigger"@),
        ),
        member_of(member(raw, "header"@), "event_id"@) is None || member_of(
            member_of(member(raw, "event"@), "operator"@),
            "open_id"@,
        ) is None || member_of(member_of(member(raw, "event"@), "action"@), "tag"@) != Some(
            Tree::Text("button"@),
        ) || member_of(member_of(member(raw, "event"@), "action"@), "value"@) is None || member_of(
            member_of(member(raw, "event"@), "context"@),
            "open_chat_id"@,
        ) is None || member_of(member_of(member(raw, "event"@), "context"@), "open_message_id"@) is None,
    ensures
        card_action(raw, choice, digest, provider_id, now_ms) is Err,
{
}

/// Why a choice is refused: the first thing about it that is wrong.
pub proof fn lemma_refusals(
    v: ChoiceView,
    provider_id: Seq<char>,
    operator: Seq<char>,
    chat: Seq<char>,
    now_ms: u64,
)
    ensures
        ({
            let fault = choice_fault(v, provider_id, operator, chat, now_ms);
            let right_action = v.bifrost_action == "slash_choice"@;
            let right_provider = right_action && v.provider_id == provider_id;
            let right_user = right_provider && v.user_id == operator;
            let right_chat = right_user && v.chat_id == chat;
            let right_type = right_chat && (v.chat_type == "p2p"@ || v.chat_type == "group"@);
            &&& !right_action ==> fault == Some("unsupported card action"@)
            &&& right_action && v.provider_id != provider_id ==> fault == Some(
                "card action provider binding mismatch"@,
            )
            &&& right_provider && v.user_id != operator ==> fault == Some(
                "card action user binding mismatch"@,
            )
            &&& right_user && v.chat_id != chat ==> fault == Some(
                "card action chat binding mismatch"@,
            )
            &&& right_chat && !right_type ==> fault == Some(
                "card action has unsupported chat type"@,
            )
            &&& right_type && v.expires_at_ms <= now_ms ==> fault == Some(
                "card action has expired"@,
            )
            &&& right_type && now_ms < v.expires_at_ms && !choice_command_allowed(v.command)
                ==> fault == Some("card action command is not allowed"@)
            &&& right_type && now_ms < v.expires_at_ms && choice_command_allowed(v.command)
                ==> fault is None
        }),
{
}

/// Cards may send two words: one that picks, and what is picked.
pub proof fn lemma_commands_of_cards(command: Seq<char>)
    ensures
        choice_command_allowed(command) ==> words(command).len() == 2 && (lowered(words(command)[0])
            == lowered("/resume"@) || lowered(words(command)[0]) == lowered("/model"@) || lowered(
            words(command)[0],
        ) == lowered("/effort"@)),
{
}

/// A choice is read only from an object that says all of it and nothing else.
pub proof fn lemma_choices_are_complete(m: Seq<(Seq<char>, Tree)>, key: Seq<char>, i: int)
    ensures
        choice_in(Tree::Object(m)) matches Some(v) ==> says(
            Tree::Object(m),
            "bifrostAction"@,
            v.bifrost_action,
        ) && says(Tree::Object(m), "providerId"@, v.provider_id) && says(
            Tree::Object(m),
            "chatId"@,
            v.chat_id,
        ) && says(Tree::Object(m), "chatType"@, v.chat_type) && says(
            Tree::Object(m),
            "userId"@,
            v.user_id,
        ) && says(Tree::Object(m), "command"@, v.command) && member(
            Tree::Object(m),
            "expiresAtMs"@,
        ) == Some(Tree::Unsigned(v.expires_at_ms)),
        0 <= i < m.len() && m[i].0 == key && key != "bifrostAction"@ && key != "providerId"@ && key
            != "chatId"@ && key != "chatType"@ && key != "userId"@ && key != "command"@ && key
            != "expiresAtMs"@ ==> choice_in(Tree::Object(m)) is None,
{
    if 0 <= i < m.len() && m[i].0 == key && key != "bifrostAction"@ && key != "providerId"@ && key
        != "chatId"@ && key != "chatType"@ && key != "userId"@ && key != "command"@ && key
        != "expiresAtMs"@ {
        assert(!crate::card_action::choice_member(m[i].0));
        assert(!crate::card_action::only_choice_members(m));
    }
}

/// The value of a click is that of its action, and a click without one says so.
pub proof fn lemma_values_of_clicks(
    raw: Tree,
    event: Tree,
    action: Tree,
    value: Tree,
    error: Seq<char>,
)
    requires
        member(raw, "event"@) == Some(event),
        member(event, "action"@) == Some(action),
        member(action, "value"@) == Some(value),
    ensures
        click_value(raw) == Some(value),
        choice_in(value) matches Some(v) ==> click_choice(raw, error) == Ok::<
            ChoiceView,
            Seq<char>,
        >(v),
        choice_in(value) is None ==> click_choice(raw, error) == Err::<ChoiceView, Seq<char>>(
            error,
        ),
{
    assert(event is Object);
    assert(action is Object);
}

// ---------------------------------------------------------------------------
// Cards
// ---------------------------------------------------------------------------

/// A card is good for a day.
pub proof fn lemma_cards_expire(now_ms: u64)
    ensures
        now_ms <= u64::MAX - 86400000 ==> card_expiry(now_ms) == now_ms + 24 * 60 * 60 * 1000,
        now_ms > u64::MAX - 86400000 ==> card_expiry(now_ms) == u64::MAX,
        now_ms <= card_expiry(now_ms),
{
}

/// A label that fits on one line stays; a longer one is cut to a hundred characters
/// that end in dots.
pub proof fn lemma_labels(label: Seq<char>)
    ensures
        tidy(label) && label.len() <= 100 ==> button_label(label) == label,
        tidy(label) && label.len() > 100 ==> button_label(label).len() == 100 && button_label(label)
            == label.take(97) + "..."@,
{
    if tidy(label) {
        crate::text::lemma_tidy_lines_are_kept(label);
    }
    reveal_strlit("...");
    assert("..."@.len() == 3);
}

/// The button for an option, where it stands on the card: two to a row, in the order
/// of the options.
pub open spec fn button_at(elements: Seq<Tree>, i: int) -> Option<Tree> {
    match member(elements[1 + i / 2], "columns"@) {
        Some(Tree::List(columns)) => match member(columns[i % 2], "elements"@) {
            Some(Tree::List(buttons)) => Some(buttons[0]),
            _ => None,
        },
        _ => None,
    }
}

/// A card shows its text first and then a button for each option, with its label,
/// and a click on it sends back the option's command, bound to whom the card is for.
pub proof fn lemma_every_option_has_its_button(
    markdown: Seq<char>,
    b: BindingView,
    options: Seq<OptionView>,
    expires: u64,
    i: int,
)
    requires
        0 <= i < options.len(),
    ensures
        ({
            let elements = choice_elements(markdown, b, options, expires);
            &&& elements.len() == 1 + (options.len() + 1) / 2
            &&& says(elements[0], "content"@, markdown)
            &&& says(elements[0], "tag"@, "markdown"@)
            &&& button_at(elements, i) matches Some(button) && button_shows(
                button,
                button_label(options[i].label),
                callback_value(b, options[i].command, expires),
            )
        }),
{
    let elements = choice_elements(markdown, b, options, expires);
    let row = (i / 2) as nat;
    let summary = elements[0];
    lemma_card_words();
    assert(summary == crate::card_action::choice_summary(markdown));
    reveal_with_fuel(find_member, 6);
    assert(elements[1 + i / 2] == crate::card_action::choice_row(b, options, row, expires));
    let columns = crate::card_action::row_columns(b, options, row, expires);
    assert(member(elements[1 + i / 2], "columns"@) == Some(Tree::List(columns)));
    let at = (i as nat);
    assert(columns[i % 2] == crate::card_action::choice_column(b, options[i], at, expires)) by {
        if i % 2 == 0 {
            assert(2 * row == i);
        } else {
            assert(2 * row + 1 == i);
        }
    }
    let button = choice_button(b, options[i], at, expires);
    assert(member(columns[i % 2], "elements"@) == Some(Tree::List(seq![button])));
    lemma_button(b, options[i], at, expires);
}

/// What a button shows, and what a click on it sends.
pub open spec fn button_shows(button: Tree, label: Seq<char>, value: Tree) -> bool {
    &&& says(button, "tag"@, "button"@)
    &&& member(button, "text"@) matches Some(text) && says(text, "content"@, label)
    &&& member(button, "behaviors"@) matches Some(Tree::List(behaviors)) && behaviors.len() == 1
        && says(behaviors[0], "type"@, "callback"@) && member(behaviors[0], "value"@) == Some(value)
}

proof fn lemma_button(b: BindingView, o: OptionView, at: nat, expires: u64)
    ensures
        button_shows(
            choice_button(b, o, at, expires),
            button_label(o.label),
            callback_value(b, o.command, expires),
        ),
{
    lemma_card_words();
    reveal_with_fuel(find_member, 6);
    let button = choice_button(b, o, at, expires);
    assert(member(button, "text"@) is Some);
    assert(member(button, "behaviors"@) is Some);
}

proof fn lemma_card_words()
    ensures
        "tag"@ != "content"@,
        "tag"@ != "element_id"@,
        "tag"@ != "flex_mode"@,
        "tag"@ != "columns"@,
        "tag"@ != "width"@,
        "tag"@ != "weight"@,
        "tag"@ != "elements"@,
        "tag"@ != "type"@,
        "tag"@ != "text"@,
        "tag"@ != "behaviors"@,
        "content"@ != "element_id"@,
        "flex_mode"@ != "columns"@,
        "element_id"@ != "columns"@,
        "width"@ != "elements"@,
        "weight"@ != "elements"@,
        "element_id"@ != "text"@,
        "element_id"@ != "behaviors"@,
        "type"@ != "text"@,
        "type"@ != "behaviors"@,
        "text"@ != "behaviors"@,
        "type"@ != "value"@,
{
    reveal_strlit("tag");
    reveal_strlit("content");
    reveal_strlit("element_id");
    reveal_strlit("flex_mode");
    reveal_strlit("columns");
    reveal_strlit("width");
    reveal_strlit("weight");
    reveal_strlit("elements");
    reveal_strlit("type");
    reveal_strlit("text");
    reveal_strlit("behaviors");
    reveal_strlit("value");
    assert("tag"@.len() == 3 && "content"@.len() == 7 && "element_id"@.len() == 10
        && "flex_mode"@.len() == 9 && "columns"@.len() == 7 && "width"@.len() == 5
        && "weight"@.len() == 6 && "elements"@.len() == 8 && "type"@.len() == 4 && "text"@.len()
        == 4 && "behaviors"@.len() == 9 && "value"@.len() == 5);
    assert("type"@[1] == 'y' && "text"@[1] == 'e');
    assert("flex_mode"@[0] == 'f' && "behaviors"@[0] == 'b');
}

/// Which commands cards may send: a session to go on with, a model or a level that can
/// be chosen, and the word that clears a choice; nothing else.
pub proof fn lemma_commands_that_cards_may_send(command: Seq<char>)
    requires
        words(command).len() == 2,
    ensures
        ({
            let first = lowered(words(command)[0]);
            let second = lowered(words(command)[1]);
            let picks = resume_command_of(command) matches Some(Ok(ResumeView::Pick(_)));
            let chooses_model = model_slash(command) matches Some(Ok(SlashView::Select(_)));
            let clears_model = model_slash(command) matches Some(Ok(SlashView::Clear));
            let chooses_level = effort_slash(command) matches Some(Ok(SlashView::Select(_)));
            let clears_level = effort_slash(command) matches Some(Ok(SlashView::Clear));
            &&& first == lowered("/resume"@) ==> (choice_command_allowed(command) <==> picks)
            &&& first == lowered("/model"@) && chooses_model ==> choice_command_allowed(command)
            &&& first == lowered("/model"@) && clears_model ==> (choice_command_allowed(command)
                <==> second == lowered("clear"@))
            &&& first == lowered("/effort"@) && chooses_level ==> choice_command_allowed(command)
            &&& first == lowered("/effort"@) && clears_level ==> (choice_command_allowed(command)
                <==> second == lowered("clear"@))
            &&& first != lowered("/resume"@) && first != lowered("/model"@) && first != lowered(
                "/effort"@,
            ) ==> !choice_command_allowed(command)
        }),
{
    lemma_first_words();
}

proof fn lemma_first_words()
    ensures
        lowered("/resume"@) != lowered("/model"@),
        lowered("/resume"@) != lowered("/effort"@),
        lowered("/model"@) != lowered("/effort"@),
{
    reveal_strlit("/resume");
    reveal_strlit("/model");
    reveal_strlit("/effort");
    assert(lowered("/resume"@)[1] == 'r');
    assert(lowered("/model"@)[1] == 'm');
    assert(lowered("/effort"@)[1] == 'e');
}

/// A choice may be written as a list of its seven parts in their order.
pub proof fn lemma_choices_as_lists(
    a: Seq<char>,
    p: Seq<char>,
    c: Seq<char>,
    t: Seq<char>,
    u: Seq<char>,
    command: Seq<char>,
    expires: u64,
    l: Seq<Tree>,
)
    ensures
        choice_in(
            Tree::List(
                seq![
                    Tree::Text(a),
                    Tree::Text(p),
                    Tree::Text(c),
                    Tree::Text(t),
                    Tree::Text(u),
                    Tree::Text(command),
                    Tree::Unsigned(expires),
                ],
            ),
        ) == Some(
            ChoiceView {
                bifrost_action: a,
                provider_id: p,
                chat_id: c,
                chat_type: t,
                user_id: u,
                command,
                expires_at_ms: expires,
            },
        ),
        l.len() != 7 ==> choice_in(Tree::List(l)) is None,
        choice_in(Tree::Text(a)) is None,
        choice_in(Tree::Null) is None,
{
}

/// A card is shown over its whole width and to everyone alike.
pub proof fn lemma_cards(elements: Seq<Tree>)
    ensures
        member_of(member(card_of(elements), "body"@), "elements"@) == Some(Tree::List(elements)),
        says(card_of(elements), "schema"@, "2.0"@),
        member_of(member(card_of(elements), "config"@), "update_multi"@) == Some(Tree::Bool(true)),
        member_of(member(card_of(elements), "config"@), "width_mode"@) == Some(Tree::Text("fill"@)),
{
    reveal_strlit("schema");
    reveal_strlit("config");
    reveal_strlit("body");
    reveal_strlit("update_multi");
    reveal_strlit("width_mode");
    assert("schema"@.len() == 6 && "config"@.len() == 6 && "body"@.len() == 4
        && "update_multi"@.len() == 12 && "width_mode"@.len() == 10);
    assert("schema"@[0] == 's' && "config"@[0] == 'c');
    reveal_with_fuel(find_member, 4);
}

/// What is said of a click that lacks something: the first part that is missing.
pub proof fn lemma_what_clicks_lack(
    raw: Tree,
    v: ChoiceView,
    digest: Option<Seq<char>>,
    provider_id: Seq<char>,
    now_ms: u64,
    event_id: Seq<char>,
    operator: Seq<char>,
    chat: Seq<char>,
)
    requires
        member_of(member(raw, "header"@), "event_type"@) == Some(
            Tree::Text("card.action.trigger"@),
        ),
    ensures
        ({
            let choice = Ok::<ChoiceView, Seq<char>>(v);
            let answer = card_action(raw, choice, digest, provider_id, now_ms);
            let event = member(raw, "event"@);
            let action = member_of(event, "action"@);
            let context = member_of(event, "context"@);
            let has_id = member_of(member(raw, "header"@), "event_id"@) == Some(
                Tree::Text(event_id),
            ) && trimmed(event_id).len() > 0;
            let has_operator = has_id && member_of(member_of(event, "operator"@), "open_id"@)
                == Some(Tree::Text(operator)) && trimmed(operator).len() > 0;
            let has_button = has_operator && member_of(action, "tag"@) == Some(
                Tree::Text("button"@),
            );
            let has_value = has_button && member_of(action, "value"@) is Some;
            let has_context = has_value && context is Some && context->Some_0 is Object;
            let has_chat = has_context && member_of(context, "open_chat_id"@) == Some(
                Tree::Text(chat),
            ) && trimmed(chat).len() > 0;
            &&& member_of(member(raw, "header"@), "event_id"@) is None ==> answer == Err::<
                Option<ImEventView>,
                Seq<char>,
            >("card action is missing header.event_id"@)
            &&& has_id && event is None ==> answer == Err::<Option<ImEventView>, Seq<char>>(
                "card action is missing event"@,
            )
            &&& has_id && event is Some && event->Some_0 is Object && member_of(
                member_of(event, "operator"@),
                "open_id"@,
            ) is None ==> answer == Err::<Option<ImEventView>, Seq<char>>(
                "card action is missing event.operator.open_id"@,
            )
            &&& has_operator && action is None ==> answer == Err::<Option<ImEventView>, Seq<char>>(
                "card action is missing event.action"@,
            )
            &&& has_operator && action is Some && action->Some_0 is Object && member_of(
                action,
                "tag"@,
            ) is None ==> answer == Err::<Option<ImEventView>, Seq<char>>(
                "card action does not originate from a button"@,
            )
            &&& has_button && member_of(action, "value"@) is None ==> answer == Err::<
                Option<ImEventView>,
                Seq<char>,
            >("card action is missing event.action.value"@)
            &&& has_value && context is None ==> answer == Err::<Option<ImEventView>, Seq<char>>(
                "card action is missing event.context"@,
            )
            &&& has_context && member_of(context, "open_chat_id"@) is None ==> answer == Err::<
                Option<ImEventView>,
                Seq<char>,
            >("card action is missing event.context.open_chat_id"@)
            &&& has_chat && member_of(context, "open_message_id"@) is None ==> answer == Err::<
                Option<ImEventView>,
                Seq<char>,
            >("card action is missing event.context.open_message_id"@)
        }),
{
}

/// A button sends back what it was made for.
pub proof fn lemma_values_of_buttons(b: BindingView, command: Seq<char>, expires: u64)
    ensures
        ({
            let v = callback_value(b, command, expires);
            &&& says(v, "bifrostAction"@, "slash_choice"@)
            &&& says(v, "providerId"@, b.provider_id)
            &&& says(v, "chatId"@, b.chat_id)
            &&& says(v, "chatType"@, b.chat_type)
            &&& says(v, "userId"@, b.user_id)
            &&& says(v, "command"@, command)
            &&& member(v, "expiresAtMs"@) == Some(Tree::Unsigned(expires))
        }),
{
    reveal_strlit("bifrostAction");
    reveal_strlit("providerId");
    reveal_strlit("chatId");
    reveal_strlit("chatType");
    reveal_strlit("userId");
    reveal_strlit("command");
    reveal_strlit("expiresAtMs");
    assert("bifrostAction"@.len() == 13 && "providerId"@.len() == 10 && "chatId"@.len() == 6
        && "chatType"@.len() == 8 && "userId"@.len() == 6 && "command"@.len() == 7
        && "expiresAtMs"@.len() == 11);
    assert("chatId"@[0] == 'c' && "userId"@[0] == 'u');
    reveal_with_fuel(find_member, 8);
}

/// How the parts of a card are laid out: a row of columns of one weight, each with its
/// button.
pub proof fn lemma_layout_of_cards(
    markdown: Seq<char>,
    b: BindingView,
    options: Seq<OptionView>,
    o: OptionView,
    at: nat,
    expires: u64,
)
    ensures
        says(choice_summary(markdown), "element_id"@, "choice_summary"@),
        says(choice_row(b, options, at, expires), "tag"@, "column_set"@),
        says(choice_row(b, options, at, expires), "flex_mode"@, "flow"@),
        says(choice_row(b, options, at, expires), "element_id"@, "choice_row_"@ + decimal(at)),
        says(choice_column(b, o, at, expires), "tag"@, "column"@),
        says(choice_column(b, o, at, expires), "width"@, "weighted"@),
        member(choice_column(b, o, at, expires), "weight"@) == Some(Tree::Unsigned(1)),
        says(choice_button(b, o, at, expires), "element_id"@, "choice_"@ + decimal(at)),
        says(choice_button(b, o, at, expires), "type"@, "default"@),
        member_of(member(choice_button(b, o, at, expires), "text"@), "tag"@) == Some(
            Tree::Text("plain_text"@),
        ),
{
    reveal_strlit("tag");
    reveal_strlit("element_id");
    reveal_strlit("type");
    reveal_strlit("text");
    reveal_strlit("content");
    reveal_strlit("behaviors");
    reveal_strlit("width");
    reveal_strlit("weight");
    reveal_strlit("elements");
    reveal_strlit("flex_mode");
    reveal_strlit("columns");
    assert("tag"@.len() == 3 && "element_id"@.len() == 10 && "type"@.len() == 4 && "text"@.len()
        == 4 && "content"@.len() == 7 && "behaviors"@.len() == 9 && "width"@.len() == 5
        && "weight"@.len() == 6 && "elements"@.len() == 8 && "flex_mode"@.len() == 9
        && "columns"@.len() == 7);
    assert("type"@[1] == 'y' && "text"@[1] == 'e');
    reveal_with_fuel(find_member, 6);
}

/// A label of more than one line is one line of its words.
pub proof fn lemma_lines_of_labels(label: Seq<char>)
    ensures
        joined(words(label), " "@).len() <= 100 ==> button_label(label) == joined(
            words(label),
            " "@,
        ),
        button_label(label).len() <= 100,
{
    reveal_strlit("...");
    assert("..."@.len() == 3);
}

/// A row holds two buttons, and the last one of an odd number holds one.
pub proof fn lemma_rows_of_buttons(
    markdown: Seq<char>,
    b: BindingView,
    options: Seq<OptionView>,
    expires: u64,
    row: nat,
)
    requires
        2 * row < options.len(),
    ensures
        member(choice_elements(markdown, b, options, expires)[1 + row as int], "columns"@) matches Some(
            Tree::List(columns),
        ) && columns.len() == (if 2 * row + 1 == options.len() {
            1nat
        } else {
            2
        }),
{
    lemma_card_words();
    reveal_with_fuel(find_member, 6);
    let elements = choice_elements(markdown, b, options, expires);
    assert(elements[1 + row as int] == choice_row(b, options, row, expires));
    let columns = crate::card_action::row_columns(b, options, row, expires);
    assert(member(elements[1 + row as int], "columns"@) == Some(Tree::List(columns)));
}

} // verus!
