//! What the relay reads in the messages that are sent to it.

use crate::ids::{uuid_text, Uuid};
use crate::json::reading::{
    has_member, has_no_member, has_number, has_text, lemma_has_number,
    lemma_identifier_is_unescaped, lemma_members_in_order, lemma_next_member, lemma_one_member,
    lemma_unescaped, lemma_values, reads_as,
};
use crate::json::{
    comes_first, comes_first_at, is_name, is_orderly, json_string, members, object_text,
};
use crate::publisher::session::Outbound;
use crate::text::{decimal, signed_decimal};
use vstd::prelude::*;

verus! {

proof fn lemma_names()
    ensures
        is_name("accepts_input"@),
        is_name("at_unix_ms"@),
        is_name("cols"@),
        is_name("in_reply_to"@),
        is_name("label"@),
        is_name("local_ref"@),
        is_name("optional"@),
        is_name("reason"@),
        is_name("request_id"@),
        is_name("rows"@),
        is_name("term"@),
        is_name("terminal_id"@),
        is_name("terminal_open_requests"@),
        is_name("type"@),
{
    reveal_strlit("accepts_input");
    reveal_strlit("at_unix_ms");
    reveal_strlit("cols");
    reveal_strlit("in_reply_to");
    reveal_strlit("label");
    reveal_strlit("local_ref");
    reveal_strlit("optional");
    reveal_strlit("reason");
    reveal_strlit("request_id");
    reveal_strlit("rows");
    reveal_strlit("term");
    reveal_strlit("terminal_id");
    reveal_strlit("terminal_open_requests");
    reveal_strlit("type");
}

proof fn lemma_order()
    ensures
        comes_first("accepts_input"@, "cols"@),
        comes_first("at_unix_ms"@, "type"@),
        comes_first("cols"@, "in_reply_to"@),
        comes_first("cols"@, "label"@),
        comes_first("cols"@, "rows"@),
        comes_first("in_reply_to"@, "label"@),
        comes_first("in_reply_to"@, "reason"@),
        comes_first("label"@, "local_ref"@),
        comes_first("local_ref"@, "request_id"@),
        comes_first("optional"@, "terminal_open_requests"@),
        comes_first("reason"@, "terminal_id"@),
        comes_first("reason"@, "type"@),
        comes_first("request_id"@, "rows"@),
        comes_first("rows"@, "term"@),
        comes_first("rows"@, "terminal_id"@),
        comes_first("term"@, "type"@),
        comes_first("terminal_id"@, "type"@),
        comes_first("terminal_open_requests"@, "type"@),
        "in_reply_to"@.len() == 11,
        "accepts_input"@.len() == 13,
        "cols"@.len() == 4,
        "label"@.len() == 5,
        "local_ref"@.len() == 9,
        "request_id"@.len() == 10,
        "rows"@.len() == 4,
        "term"@.len() == 4,
        "type"@.len() == 4,
{
    reveal_strlit("accepts_input");
    reveal_strlit("at_unix_ms");
    reveal_strlit("cols");
    reveal_strlit("in_reply_to");
    reveal_strlit("label");
    reveal_strlit("local_ref");
    reveal_strlit("optional");
    reveal_strlit("reason");
    reveal_strlit("request_id");
    reveal_strlit("rows");
    reveal_strlit("term");
    reveal_strlit("terminal_id");
    reveal_strlit("terminal_open_requests");
    reveal_strlit("type");
    assert("accepts_input"@.take(0) =~= "cols"@.take(0));
    assert(comes_first_at("accepts_input"@, "cols"@, 0));
    assert("at_unix_ms"@.take(0) =~= "type"@.take(0));
    assert(comes_first_at("at_unix_ms"@, "type"@, 0));
    assert("cols"@.take(0) =~= "in_reply_to"@.take(0));
    assert(comes_first_at("cols"@, "in_reply_to"@, 0));
    assert("cols"@.take(0) =~= "label"@.take(0));
    assert(comes_first_at("cols"@, "label"@, 0));
    assert("cols"@.take(0) =~= "rows"@.take(0));
    assert(comes_first_at("cols"@, "rows"@, 0));
    assert("in_reply_to"@.take(0) =~= "label"@.take(0));
    assert(comes_first_at("in_reply_to"@, "label"@, 0));
    assert("in_reply_to"@.take(0) =~= "reason"@.take(0));
    assert(comes_first_at("in_reply_to"@, "reason"@, 0));
    assert("label"@.take(1) =~= "local_ref"@.take(1));
    assert(comes_first_at("label"@, "local_ref"@, 1));
    assert("local_ref"@.take(0) =~= "request_id"@.take(0));
    assert(comes_first_at("local_ref"@, "request_id"@, 0));
    assert("optional"@.take(0) =~= "terminal_open_requests"@.take(0));
    assert(comes_first_at("optional"@, "terminal_open_requests"@, 0));
    assert("reason"@.take(0) =~= "terminal_id"@.take(0));
    assert(comes_first_at("reason"@, "terminal_id"@, 0));
    assert("reason"@.take(0) =~= "type"@.take(0));
    assert(comes_first_at("reason"@, "type"@, 0));
    assert("request_id"@.take(1) =~= "rows"@.take(1));
    assert(comes_first_at("request_id"@, "rows"@, 1));
    assert("rows"@.take(0) =~= "term"@.take(0));
    assert(comes_first_at("rows"@, "term"@, 0));
    assert("rows"@.take(0) =~= "terminal_id"@.take(0));
    assert(comes_first_at("rows"@, "terminal_id"@, 0));
    assert("term"@.take(1) =~= "type"@.take(1));
    assert(comes_first_at("term"@, "type"@, 1));
    assert("terminal_id"@.take(1) =~= "type"@.take(1));
    assert(comes_first_at("terminal_id"@, "type"@, 1));
    assert("terminal_open_requests"@.take(1) =~= "type"@.take(1));
    assert(comes_first_at("terminal_open_requests"@, "type"@, 1));
}

/// The marks between the members.
proof fn lemma_marks()
    ensures
        "{\"accepts_input\":true,\"cols\":"@ == "{"@ + ("\""@ + "accepts_input"@ + "\":"@ + "true"@)
            + (","@ + "\""@ + "cols"@ + "\":"@),
        "{\"cols\":"@ == "{"@ + ("\""@ + "cols"@ + "\":"@),
        "{\"reason\":"@ == "{"@ + ("\""@ + "reason"@ + "\":"@),
        "{\"in_reply_to\":"@ == "{"@ + ("\""@ + "in_reply_to"@ + "\":"@),
        "{\"at_unix_ms\":"@ == "{"@ + ("\""@ + "at_unix_ms"@ + "\":"@),
        ",\"in_reply_to\":"@ == ","@ + "\""@ + "in_reply_to"@ + "\":"@,
        ",\"label\":"@ == ","@ + "\""@ + "label"@ + "\":"@,
        ",\"local_ref\":"@ == ","@ + "\""@ + "local_ref"@ + "\":"@,
        ",\"request_id\":"@ == ","@ + "\""@ + "request_id"@ + "\":"@,
        ",\"rows\":"@ == ","@ + "\""@ + "rows"@ + "\":"@,
        ",\"term\":"@ == ","@ + "\""@ + "term"@ + "\":"@,
        ",\"reason\":"@ == ","@ + "\""@ + "reason"@ + "\":"@,
        ",\"terminal_id\":\""@ == (","@ + "\""@ + "terminal_id"@ + "\":"@) + "\""@,
{
    reveal_strlit("{");
    reveal_strlit(",");
    reveal_strlit("\"");
    reveal_strlit("\":");
    reveal_strlit("true");
    reveal_strlit("accepts_input");
    reveal_strlit("at_unix_ms");
    reveal_strlit("cols");
    reveal_strlit("in_reply_to");
    reveal_strlit("label");
    reveal_strlit("local_ref");
    reveal_strlit("reason");
    reveal_strlit("request_id");
    reveal_strlit("rows");
    reveal_strlit("term");
    reveal_strlit("terminal_id");
    reveal_strlit("{\"accepts_input\":true,\"cols\":");
    reveal_strlit("{\"cols\":");
    reveal_strlit("{\"reason\":");
    reveal_strlit("{\"in_reply_to\":");
    reveal_strlit("{\"at_unix_ms\":");
    reveal_strlit(",\"in_reply_to\":");
    reveal_strlit(",\"label\":");
    reveal_strlit(",\"local_ref\":");
    reveal_strlit(",\"request_id\":");
    reveal_strlit(",\"rows\":");
    reveal_strlit(",\"term\":");
    reveal_strlit(",\"reason\":");
    reveal_strlit(",\"terminal_id\":\"");
    assert("{\"accepts_input\":true,\"cols\":"@ =~= "{"@ + ("\""@ + "accepts_input"@ + "\":"@
        + "true"@) + (","@ + "\""@ + "cols"@ + "\":"@));
    assert("{\"cols\":"@ =~= "{"@ + ("\""@ + "cols"@ + "\":"@));
    assert("{\"reason\":"@ =~= "{"@ + ("\""@ + "reason"@ + "\":"@));
    assert("{\"in_reply_to\":"@ =~= "{"@ + ("\""@ + "in_reply_to"@ + "\":"@));
    assert("{\"at_unix_ms\":"@ =~= "{"@ + ("\""@ + "at_unix_ms"@ + "\":"@));
    assert(",\"in_reply_to\":"@ =~= ","@ + "\""@ + "in_reply_to"@ + "\":"@);
    assert(",\"label\":"@ =~= ","@ + "\""@ + "label"@ + "\":"@);
    assert(",\"local_ref\":"@ =~= ","@ + "\""@ + "local_ref"@ + "\":"@);
    assert(",\"request_id\":"@ =~= ","@ + "\""@ + "request_id"@ + "\":"@);
    assert(",\"rows\":"@ =~= ","@ + "\""@ + "rows"@ + "\":"@);
    assert(",\"term\":"@ =~= ","@ + "\""@ + "term"@ + "\":"@);
    assert(",\"reason\":"@ =~= ","@ + "\""@ + "reason"@ + "\":"@);
    assert(",\"terminal_id\":\""@ =~= (","@ + "\""@ + "terminal_id"@ + "\":"@) + "\""@);
}

/// The end of a message of a type: the last member.
proof fn lemma_type_ends()
    ensures
        ",\"type\":\"terminal.open\"}"@ == (","@ + "\""@ + "type"@ + "\":"@) + json_string(
            "terminal.open"@,
        ) + "}"@,
        "\",\"type\":\"terminal.resize\"}"@ == "\""@ + (","@ + "\""@ + "type"@ + "\":"@)
            + json_string("terminal.resize"@) + "}"@,
        "\",\"type\":\"terminal.close\"}"@ == "\""@ + (","@ + "\""@ + "type"@ + "\":"@) + json_string(
            "terminal.close"@,
        ) + "}"@,
        ",\"type\":\"terminal.open_declined\"}"@ == (","@ + "\""@ + "type"@ + "\":"@) + json_string(
            "terminal.open_declined"@,
        ) + "}"@,
        ",\"type\":\"pong\"}"@ == (","@ + "\""@ + "type"@ + "\":"@) + json_string("pong"@) + "}"@,
{
    reveal_strlit("}");
    reveal_strlit(",");
    reveal_strlit("\"");
    reveal_strlit("\":");
    reveal_strlit("type");
    reveal_strlit("terminal.open");
    reveal_strlit("terminal.resize");
    reveal_strlit("terminal.close");
    reveal_strlit("terminal.open_declined");
    reveal_strlit("pong");
    reveal_strlit(",\"type\":\"terminal.open\"}");
    reveal_strlit("\",\"type\":\"terminal.resize\"}");
    reveal_strlit("\",\"type\":\"terminal.close\"}");
    reveal_strlit(",\"type\":\"terminal.open_declined\"}");
    reveal_strlit(",\"type\":\"pong\"}");
    lemma_unescaped("terminal.open"@);
    lemma_unescaped("terminal.resize"@);
    lemma_unescaped("terminal.close"@);
    lemma_unescaped("terminal.open_declined"@);
    lemma_unescaped("pong"@);
    assert(",\"type\":\"terminal.open\"}"@ =~= (","@ + "\""@ + "type"@ + "\":"@) + json_string(
        "terminal.open"@,
    ) + "}"@);
    assert("\",\"type\":\"terminal.resize\"}"@ =~= "\""@ + (","@ + "\""@ + "type"@ + "\":"@)
        + json_string("terminal.resize"@) + "}"@);
    assert("\",\"type\":\"terminal.close\"}"@ =~= "\""@ + (","@ + "\""@ + "type"@ + "\":"@)
        + json_string("terminal.close"@) + "}"@);
    assert(",\"type\":\"terminal.open_declined\"}"@ =~= (","@ + "\""@ + "type"@ + "\":"@)
        + json_string("terminal.open_declined"@) + "}"@);
    assert(",\"type\":\"pong\"}"@ =~= (","@ + "\""@ + "type"@ + "\":"@) + json_string("pong"@)
        + "}"@);
}

/// The members that announce a terminal.
spec fn announcement(
    request_id: Seq<char>,
    local_ref: Seq<char>,
    label: Seq<char>,
    cols: u16,
    rows: u16,
    term: Seq<char>,
    in_reply_to: Option<Seq<char>>,
) -> Seq<(Seq<char>, Seq<char>)> {
    let reply = match in_reply_to {
        Some(request) => seq![("in_reply_to"@, json_string(request))],
        None => Seq::empty(),
    };
    seq![("accepts_input"@, "true"@), ("cols"@, decimal(cols as nat))] + reply + seq![
        ("label"@, json_string(label)),
        ("local_ref"@, json_string(local_ref)),
        ("request_id"@, json_string(request_id)),
        ("rows"@, decimal(rows as nat)),
        ("term"@, json_string(term)),
        ("type"@, json_string("terminal.open"@)),
    ]
}

/// The beginning of an announcement, up to the request that it answers.
proof fn lemma_announcement_begins(cols: u16, in_reply_to: Option<Seq<char>>) -> (list: Seq<
    (Seq<char>, Seq<char>),
>)
    ensures
        list.len() > 0,
        list == seq![("accepts_input"@, "true"@), ("cols"@, decimal(cols as nat))] + (
        match in_reply_to {
            Some(request) => seq![("in_reply_to"@, json_string(request))],
            None => Seq::empty(),
        }),
        "{\"accepts_input\":true,\"cols\":"@ + decimal(cols as nat) + (match in_reply_to {
            Some(request) => ",\"in_reply_to\":"@ + json_string(request),
            None => ""@,
        }) == "{"@ + members(list),
{
    lemma_marks();
    reveal_strlit("");
    let one = seq![("accepts_input"@, "true"@)];
    lemma_one_member("accepts_input"@, "true"@);
    let text = "{"@ + ("\""@ + "accepts_input"@ + "\":"@ + "true"@);
    let two = one.push(("cols"@, decimal(cols as nat)));
    lemma_next_member(one, text, ","@ + "\""@ + "cols"@ + "\":"@, "cols"@, decimal(cols as nat));
    let text = "{\"accepts_input\":true,\"cols\":"@ + decimal(cols as nat);
    match in_reply_to {
        Some(request) => {
            lemma_next_member(
                two,
                text,
                ",\"in_reply_to\":"@,
                "in_reply_to"@,
                json_string(request),
            );
            let list = two.push(("in_reply_to"@, json_string(request)));
            assert(text + (",\"in_reply_to\":"@ + json_string(request)) =~= text
                + ",\"in_reply_to\":"@ + json_string(request));
            assert(list =~= seq![("accepts_input"@, "true"@), ("cols"@, decimal(cols as nat))]
                + seq![("in_reply_to"@, json_string(request))]);
            list
        },
        None => {
            assert(text + ""@ =~= text);
            assert(two =~= seq![("accepts_input"@, "true"@), ("cols"@, decimal(cols as nat))]
                + Seq::empty());
            two
        },
    }
}

/// The rest of an announcement.
proof fn lemma_announcement_goes_on(
    list: Seq<(Seq<char>, Seq<char>)>,
    text: Seq<char>,
    request_id: Seq<char>,
    local_ref: Seq<char>,
    label: Seq<char>,
    rows: u16,
    term: Seq<char>,
)
    requires
        list.len() > 0,
        text == "{"@ + members(list),
    ensures
        text + ",\"label\":"@ + json_string(label) + ",\"local_ref\":"@ + json_string(local_ref)
            + ",\"request_id\":"@ + json_string(request_id) + ",\"rows\":"@ + decimal(rows as nat)
            + ",\"term\":"@ + json_string(term) + ",\"type\":\"terminal.open\"}"@ == object_text(
            list + seq![
                ("label"@, json_string(label)),
                ("local_ref"@, json_string(local_ref)),
                ("request_id"@, json_string(request_id)),
                ("rows"@, decimal(rows as nat)),
                ("term"@, json_string(term)),
                ("type"@, json_string("terminal.open"@)),
            ],
        ),
{
    lemma_marks();
    lemma_type_ends();
    lemma_next_member(list, text, ",\"label\":"@, "label"@, json_string(label));
    let four = list.push(("label"@, json_string(label)));
    let text = text + ",\"label\":"@ + json_string(label);
    lemma_next_member(four, text, ",\"local_ref\":"@, "local_ref"@, json_string(local_ref));
    let five = four.push(("local_ref"@, json_string(local_ref)));
    let text = text + ",\"local_ref\":"@ + json_string(local_ref);
    lemma_next_member(five, text, ",\"request_id\":"@, "request_id"@, json_string(request_id));
    let six = five.push(("request_id"@, json_string(request_id)));
    let text = text + ",\"request_id\":"@ + json_string(request_id);
    lemma_next_member(six, text, ",\"rows\":"@, "rows"@, decimal(rows as nat));
    let seven = six.push(("rows"@, decimal(rows as nat)));
    let text = text + ",\"rows\":"@ + decimal(rows as nat);
    lemma_next_member(seven, text, ",\"term\":"@, "term"@, json_string(term));
    let eight = seven.push(("term"@, json_string(term)));
    let text = text + ",\"term\":"@ + json_string(term);
    let mark = ","@ + "\""@ + "type"@ + "\":"@;
    let kind = json_string("terminal.open"@);
    lemma_next_member(eight, text, mark, "type"@, kind);
    assert(text + ",\"type\":\"terminal.open\"}"@ =~= text + mark + kind + "}"@);
    assert(eight.push(("type"@, kind)) =~= list + seq![
        ("label"@, json_string(label)),
        ("local_ref"@, json_string(local_ref)),
        ("request_id"@, json_string(request_id)),
        ("rows"@, decimal(rows as nat)),
        ("term"@, json_string(term)),
        ("type"@, json_string("terminal.open"@)),
    ]);
}

/// A terminal as it is announced: the object that its message reads as.
proof fn lemma_open_reads(
    request_id: Seq<char>,
    local_ref: Seq<char>,
    label: Seq<char>,
    cols: u16,
    rows: u16,
    term: Seq<char>,
    in_reply_to: Option<Seq<char>>,
) -> (list: Seq<(Seq<char>, Seq<char>)>)
    ensures
        (Outbound::<Seq<char>, Seq<u8>>::Open {
            request_id,
            local_ref,
            label,
            cols,
            rows,
            term,
            in_reply_to,
        }).json() == Some(object_text(list)),
        list == announcement(request_id, local_ref, label, cols, rows, term, in_reply_to),
{
    let front = lemma_announcement_begins(cols, in_reply_to);
    lemma_announcement_goes_on(
        front,
        "{"@ + members(front),
        request_id,
        local_ref,
        label,
        rows,
        term,
    );
    announcement(request_id, local_ref, label, cols, rows, term, in_reply_to)
}

/// The message that announces a terminal is read by the relay as what it was written from:
/// the columns are its columns and the rows its rows, and its label, references and kind
/// are its own. It answers the request that it was opened for, and none otherwise.
#[verifier::spinoff_prover]
#[verifier::rlimit(60)]
pub proof fn law_announced_terminals_read_back(
    request_id: Seq<char>,
    local_ref: Seq<char>,
    label: Seq<char>,
    cols: u16,
    rows: u16,
    term: Seq<char>,
    in_reply_to: Option<Seq<char>>,
)
    ensures
        ({
            let message = Outbound::<Seq<char>, Seq<u8>>::Open {
                request_id,
                local_ref,
                label,
                cols,
                rows,
                term,
                in_reply_to,
            };
            let text = message.json()->0;
            &&& message.json() is Some
            &&& has_text(text, "type"@, "terminal.open"@)
            &&& has_number(text, "cols"@, cols as nat)
            &&& has_number(text, "rows"@, rows as nat)
            &&& has_text(text, "label"@, label)
            &&& has_text(text, "local_ref"@, local_ref)
            &&& has_text(text, "request_id"@, request_id)
            &&& has_text(text, "term"@, term)
            &&& has_member(text, "accepts_input"@, "true"@)
            &&& match in_reply_to {
                Some(request) => has_text(text, "in_reply_to"@, request),
                None => has_no_member(text, "in_reply_to"@),
            }
        }),
{
    let list = lemma_open_reads(request_id, local_ref, label, cols, rows, term, in_reply_to);
    lemma_names();
    lemma_order();
    lemma_values();
    let text = object_text(list);
    assert(is_orderly(list));
    lemma_members_in_order(list);
    let last = list.len() - 1;
    assert(list[0] == ("accepts_input"@, "true"@));
    assert(list[1] == ("cols"@, decimal(cols as nat)));
    assert(list[last - 5] == ("label"@, json_string(label)));
    assert(list[last - 4] == ("local_ref"@, json_string(local_ref)));
    assert(list[last - 3] == ("request_id"@, json_string(request_id)));
    assert(list[last - 2] == ("rows"@, decimal(rows as nat)));
    assert(list[last - 1] == ("term"@, json_string(term)));
    assert(list[last] == ("type"@, json_string("terminal.open"@)));
    lemma_has_number(text, "cols"@, cols as nat);
    lemma_has_number(text, "rows"@, rows as nat);
    match in_reply_to {
        Some(request) => {
            assert(list[2] == ("in_reply_to"@, json_string(request)));
        },
        None => {
            assert(reads_as(text, list));
        },
    }
}

/// A declared size is read by the relay as it was declared, for the terminal that it was
/// declared for.
#[verifier::spinoff_prover]
#[verifier::rlimit(60)]
pub proof fn law_declared_sizes_read_back(terminal_id: Uuid, cols: u16, rows: u16)
    ensures
        ({
            let message = Outbound::<Seq<char>, Seq<u8>>::Resize { terminal_id, cols, rows };
            let text = message.json()->0;
            &&& message.json() is Some
            &&& has_text(text, "type"@, "terminal.resize"@)
            &&& has_number(text, "cols"@, cols as nat)
            &&& has_number(text, "rows"@, rows as nat)
            &&& has_text(text, "terminal_id"@, uuid_text(terminal_id.value))
        }),
{
    lemma_marks();
    lemma_type_ends();
    lemma_names();
    lemma_order();
    lemma_values();
    let id = uuid_text(terminal_id.value);
    lemma_identifier_is_unescaped(terminal_id.value);
    lemma_unescaped(id);
    let one = seq![("cols"@, decimal(cols as nat))];
    lemma_one_member("cols"@, decimal(cols as nat));
    let text = "{\"cols\":"@ + decimal(cols as nat);
    assert(text =~= "{"@ + members(one));
    lemma_next_member(one, text, ",\"rows\":"@, "rows"@, decimal(rows as nat));
    let two = one.push(("rows"@, decimal(rows as nat)));
    let text = text + ",\"rows\":"@ + decimal(rows as nat);
    let mark = ","@ + "\""@ + "terminal_id"@ + "\":"@;
    lemma_next_member(two, text, mark, "terminal_id"@, json_string(id));
    let three = two.push(("terminal_id"@, json_string(id)));
    let kind = json_string("terminal.resize"@);
    let end = ","@ + "\""@ + "type"@ + "\":"@;
    lemma_next_member(three, text + mark + json_string(id), end, "type"@, kind);
    let list = three.push(("type"@, kind));
    let whole = text + ",\"terminal_id\":\""@ + id + "\",\"type\":\"terminal.resize\"}"@;
    assert(whole =~= (text + mark + json_string(id)) + end + kind + "}"@);
    assert(is_orderly(list));
    lemma_members_in_order(list);
    assert(list[0] == ("cols"@, decimal(cols as nat)));
    assert(list[1] == ("rows"@, decimal(rows as nat)));
    assert(list[2] == ("terminal_id"@, json_string(id)));
    assert(list[3] == ("type"@, kind));
    lemma_has_number(whole, "cols"@, cols as nat);
    lemma_has_number(whole, "rows"@, rows as nat);
}

/// A close is read by the relay as the close of its terminal, for its reason.
#[verifier::spinoff_prover]
#[verifier::rlimit(60)]
pub proof fn law_closes_read_back(terminal_id: Uuid, reason: Seq<char>)
    ensures
        ({
            let message = Outbound::<Seq<char>, Seq<u8>>::Close { terminal_id, reason };
            let text = message.json()->0;
            &&& message.json() is Some
            &&& has_text(text, "type"@, "terminal.close"@)
            &&& has_text(text, "reason"@, reason)
            &&& has_text(text, "terminal_id"@, uuid_text(terminal_id.value))
        }),
{
    lemma_marks();
    lemma_type_ends();
    lemma_names();
    lemma_order();
    lemma_values();
    let id = uuid_text(terminal_id.value);
    lemma_identifier_is_unescaped(terminal_id.value);
    lemma_unescaped(id);
    let one = seq![("reason"@, json_string(reason))];
    lemma_one_member("reason"@, json_string(reason));
    let text = "{\"reason\":"@ + json_string(reason);
    assert(text =~= "{"@ + members(one));
    let mark = ","@ + "\""@ + "terminal_id"@ + "\":"@;
    lemma_next_member(one, text, mark, "terminal_id"@, json_string(id));
    let two = one.push(("terminal_id"@, json_string(id)));
    let kind = json_string("terminal.close"@);
    let end = ","@ + "\""@ + "type"@ + "\":"@;
    lemma_next_member(two, text + mark + json_string(id), end, "type"@, kind);
    let list = two.push(("type"@, kind));
    let whole = text + ",\"terminal_id\":\""@ + id + "\",\"type\":\"terminal.close\"}"@;
    assert(whole =~= (text + mark + json_string(id)) + end + kind + "}"@);
    assert(is_orderly(list));
    lemma_members_in_order(list);
    assert(list[0] == ("reason"@, json_string(reason)));
    assert(list[1] == ("terminal_id"@, json_string(id)));
    assert(list[2] == ("type"@, kind));
}

/// A refusal to open a terminal is read by the relay as the answer to its request, for its
/// reason.
#[verifier::spinoff_prover]
#[verifier::rlimit(60)]
pub proof fn law_refusals_to_open_read_back(in_reply_to: Seq<char>, reason: Seq<char>)
    ensures
        ({
            let message = Outbound::<Seq<char>, Seq<u8>>::OpenDeclined { in_reply_to, reason };
            let text = message.json()->0;
            &&& message.json() is Some
            &&& has_text(text, "type"@, "terminal.open_declined"@)
            &&& has_text(text, "in_reply_to"@, in_reply_to)
            &&& has_text(text, "reason"@, reason)
        }),
{
    lemma_marks();
    lemma_type_ends();
    lemma_names();
    lemma_order();
    lemma_values();
    let one = seq![("in_reply_to"@, json_string(in_reply_to))];
    lemma_one_member("in_reply_to"@, json_string(in_reply_to));
    let text = "{\"in_reply_to\":"@ + json_string(in_reply_to);
    assert(text =~= "{"@ + members(one));
    lemma_next_member(one, text, ",\"reason\":"@, "reason"@, json_string(reason));
    let two = one.push(("reason"@, json_string(reason)));
    let text = text + ",\"reason\":"@ + json_string(reason);
    let kind = json_string("terminal.open_declined"@);
    let end = ","@ + "\""@ + "type"@ + "\":"@;
    lemma_next_member(two, text, end, "type"@, kind);
    let list = two.push(("type"@, kind));
    let whole = text + ",\"type\":\"terminal.open_declined\"}"@;
    assert(whole =~= text + end + kind + "}"@);
    assert(is_orderly(list));
    lemma_members_in_order(list);
    assert(list[0] == ("in_reply_to"@, json_string(in_reply_to)));
    assert(list[1] == ("reason"@, json_string(reason)));
    assert(list[2] == ("type"@, kind));
}

/// The answer to a heartbeat is read by the relay as that, with the moment that it sent.
#[verifier::spinoff_prover]
#[verifier::rlimit(60)]
pub proof fn law_heartbeats_read_back(at_unix_ms: i64)
    ensures
        ({
            let message = Outbound::<Seq<char>, Seq<u8>>::Pong { at_unix_ms };
            let text = message.json()->0;
            &&& message.json() is Some
            &&& has_text(text, "type"@, "pong"@)
            &&& has_member(text, "at_unix_ms"@, signed_decimal(at_unix_ms as int))
        }),
{
    lemma_marks();
    lemma_type_ends();
    lemma_names();
    lemma_order();
    lemma_values();
    let at = signed_decimal(at_unix_ms as int);
    let one = seq![("at_unix_ms"@, at)];
    lemma_one_member("at_unix_ms"@, at);
    let text = "{\"at_unix_ms\":"@ + at;
    assert(text =~= "{"@ + members(one));
    let kind = json_string("pong"@);
    let end = ","@ + "\""@ + "type"@ + "\":"@;
    lemma_next_member(one, text, end, "type"@, kind);
    let list = one.push(("type"@, kind));
    let whole = text + ",\"type\":\"pong\"}"@;
    assert(whole =~= text + end + kind + "}"@);
    assert(is_orderly(list));
    lemma_members_in_order(list);
    assert(list[0] == ("at_unix_ms"@, at));
    assert(list[1] == ("type"@, kind));
}

} // verus!
