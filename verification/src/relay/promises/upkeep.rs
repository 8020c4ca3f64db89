//! What can be counted on of pages, of secrets, and of what operators set.

use crate::encoding::{base64url, law_texts_stand_for_their_bytes};
use crate::ids::Uuid;
use crate::json::reading::{
    has_member, is_value, lemma_list_is_value, lemma_members_in_order, lemma_values,
};
use crate::json::{
    comes_first, comes_first_at, is_name, is_orderly, json_string, json_value, list_text,
};
use crate::relay::command::{
    applied, assigned, desired, first_fault, first_line, judge_probe, lemma_assigned, meant,
    no_changes, parse_assignments, Assignment,
};
use crate::relay::crypto::SecretBox;
use crate::relay::devices::{devices_page, on_page, onward, page, page_rows, PageRow};
use crate::relay::error::{ApiResult, Refusal};
use crate::relay::metrics::Histogram;
use crate::relay::repo::{
    load_terminal_output, read_cursor, Chunk, Cursor, StoredSigningKey,
};
use crate::relay::storage::{columns_to_add, AddedColumn};
use crate::relay::terminals::terminals_page;
use crate::relay::tokens::{
    entries, has_active, law_keys_are_ordered, new_key, opened_keys, ordered, refresh, taken_over,
    Entry, KeyEntry, Refreshed, SealedKey,
};
use crate::text::{lemma_first_of, signed_decimal, split_at_first, texts};
use vstd::prelude::*;
use vstd::utf8::*;

verus! {

proof fn lemma_cursor_reads(timestamp: Seq<char>, id: Seq<char>)
    requires
        !timestamp.contains('|'),
    ensures
        read_cursor(base64url(encode_utf8(timestamp + "|"@ + id))) == Ok::<
            Cursor<Seq<char>>,
            Refusal,
        >(Cursor { timestamp, id }),
{
    let joined = timestamp + "|"@ + id;
    law_texts_stand_for_their_bytes(encode_utf8(joined));
    encode_utf8_valid_utf8(joined);
    encode_utf8_decode_utf8(joined);
    reveal_strlit("|");
    let at = timestamp.len() as int;
    assert(joined[at] == '|');
    assert forall|i: int| 0 <= i < at implies joined[i] != '|' by {
        assert(timestamp.contains(timestamp[i]));
    }
    lemma_first_of(joined, '|', at);
    assert(joined.take(at) =~= timestamp);
    assert(joined.skip(at + 1) =~= id);
}

/// A page shows its rows in their order, up to the limit, and leads on from its last one
/// exactly if there are more.
pub proof fn law_pages_lead_on(rows: Vec<PageRow>, limit: i64, parts: (String, String))
    requires
        limit >= 1,
        forall|i: int| 0 <= i < rows@.len() ==> !(#[trigger] rows@[i]).created_at@.contains('|'),
        call_ensures(page, (&rows, limit), parts),
    ensures
        rows@.len() <= limit ==> parts.1@ == "null"@,
        rows@.len() > limit ==> exists|raw: Seq<char>| #[trigger]
            json_string(raw) == parts.1@ && read_cursor(raw) == Ok::<Cursor<Seq<char>>, Refusal>(
                Cursor {
                    timestamp: rows@[limit - 1].created_at@,
                    id: rows@[limit - 1].id@,
                },
            ),
        exists|shown: Seq<Seq<char>>| #[trigger]
            list_text(shown) == parts.0@ && (rows@.len() <= limit ==> shown.len() == rows@.len())
                && (rows@.len() > limit ==> shown.len() == limit) && forall|i: int|
                0 <= i < shown.len() ==> #[trigger] shown[i] == rows@[i].json@,
{
    let on = on_page(rows@, limit);
    let shown = on.map_values(|row: PageRow| row@.json);
    assert(list_text(shown) == parts.0@);
    assert forall|i: int| 0 <= i < shown.len() implies #[trigger] shown[i] == rows@[i].json@ by {
        assert(on[i] == rows@[i]);
    }
    if rows@.len() > limit {
        let last = rows@[limit - 1];
        assert(on.last() == last);
        let raw = base64url(encode_utf8(last.created_at@ + "|"@ + last.id@));
        lemma_cursor_reads(last.created_at@, last.id@);
        assert(json_string(raw) == parts.1@);
    }
}

proof fn lemma_page_names()
    ensures
        is_name("devices"@),
        is_name("next_cursor"@),
        is_name("terminals"@),
        comes_first("devices"@, "next_cursor"@),
        comes_first("next_cursor"@, "terminals"@),
{
    reveal_strlit("devices");
    reveal_strlit("next_cursor");
    reveal_strlit("terminals");
    assert("devices"@.take(0) =~= "next_cursor"@.take(0));
    assert(comes_first_at("devices"@, "next_cursor"@, 0));
    assert("next_cursor"@.take(0) =~= "terminals"@.take(0));
    assert(comes_first_at("next_cursor"@, "terminals"@, 0));
}

proof fn lemma_page_is_value(rows: Seq<PageRow>, limit: i64)
    requires
        forall|i: int| 0 <= i < rows.len() ==> is_value((#[trigger] rows[i]).json@),
    ensures
        is_value(page_rows(rows, limit)),
        is_value(onward(rows, limit)),
{
    lemma_values();
    let on = on_page(rows, limit);
    let shown = on.map_values(|row: PageRow| row@.json);
    assert forall|i: int| 0 <= i < shown.len() implies is_value(#[trigger] shown[i]) by {
        assert(on[i] == rows[i]);
    }
    lemma_list_is_value(shown);
}

/// A page of devices, and one of terminals, holds the page and where it leads on.
pub proof fn law_pages_are_answered(
    rows: Vec<PageRow>,
    limit: i64,
    parts: (String, String),
    devices: String,
    terminals: String,
)
    requires
        forall|i: int| 0 <= i < rows@.len() ==> is_value((#[trigger] rows@[i]).json@),
        call_ensures(page, (&rows, limit), parts),
        call_ensures(devices_page, (&rows, limit), devices),
        call_ensures(terminals_page, (&rows, limit), terminals),
    ensures
        has_member(devices@, "devices"@, parts.0@),
        has_member(devices@, "next_cursor"@, parts.1@),
        has_member(terminals@, "terminals"@, parts.0@),
        has_member(terminals@, "next_cursor"@, parts.1@),
{
    lemma_page_names();
    lemma_page_is_value(rows@, limit);
    let one = seq![("devices"@, parts.0@), ("next_cursor"@, parts.1@)];
    assert(one[0].0 == "devices"@ && one[1].0 == "next_cursor"@);
    assert(is_orderly(one));
    lemma_members_in_order(one);
    let two = seq![("next_cursor"@, parts.1@), ("terminals"@, parts.0@)];
    assert(two[0].0 == "next_cursor"@ && two[1].0 == "terminals"@);
    assert(is_orderly(two));
    lemma_members_in_order(two);
}

/// What is sealed is opened by the same key, as bytes and as text.
pub proof fn law_sealed_secrets_open(
    secrets: SecretBox,
    plain: &[u8],
    sealed: (Vec<u8>, Vec<u8>),
    nonce: &[u8],
    ciphertext: &[u8],
    opened: Option<Vec<u8>>,
    words: &str,
    text: String,
    stored: &str,
    read: Option<String>,
)
    requires
        call_ensures(SecretBox::seal, (&secrets, plain), sealed),
        nonce@ == sealed.0@,
        ciphertext@ == sealed.1@,
        call_ensures(SecretBox::open, (&secrets, nonce, ciphertext), opened),
        call_ensures(SecretBox::seal_to_string, (&secrets, words), text),
        stored@ == text@,
        call_ensures(SecretBox::open_from_string, (&secrets, stored), read),
    ensures
        opened is Some && (opened->0)@ == plain@,
        read is Some && (read->0)@ == words@,
        sealed.0@.len() == 12,
{
}

/// A text that is not marked as sealed is not opened.
pub proof fn law_plain_texts_are_not_opened(secrets: SecretBox, stored: &str, read: Option<String>)
    requires
        call_ensures(SecretBox::open_from_string, (&secrets, stored), read),
        stored@.len() < 7 || stored@.take(7) != "enc:v1:"@,
    ensures
        read is None,
{
    reveal_strlit("enc:v1:");
}

/// A key that is drawn is active from now on, and what is stored of it opens to it.
pub proof fn law_drawn_keys_are_stored(
    secrets: SecretBox,
    kid: &str,
    now: i64,
    drawn: (KeyEntry, SealedKey),
    nonce: &[u8],
    ciphertext: &[u8],
    opened: Option<Vec<u8>>,
)
    requires
        call_ensures(new_key, (&secrets, kid, now), drawn),
        nonce@ == drawn.1.nonce@,
        ciphertext@ == drawn.1.ciphertext@,
        call_ensures(SecretBox::open, (&secrets, nonce, ciphertext), opened),
    ensures
        drawn.0.active,
        drawn.0.created_at == now,
        drawn.0.key.kid@ == kid@,
        drawn.1.kid@ == kid@,
        drawn.0.key.secret@.len() == 32,
        opened is Some && (opened->0)@ == drawn.0.key.secret@,
{
    let shown = drawn.0@;
    assert(shown.secret == drawn.0.key.secret@);
}

/// Tokens can always be minted after the keys were read: with a stored key where one is
/// active, and with a drawn one otherwise.
pub proof fn law_keys_can_always_mint(
    secrets: SecretBox,
    stored: Vec<StoredSigningKey>,
    now: i64,
    kid: &str,
    refreshed: Refreshed,
)
    requires
        call_ensures(refresh, (&secrets, &stored, now, kid), Ok(refreshed)),
    ensures
        exists|i: int| 0 <= i < refreshed.keys@.len() && (#[trigger] refreshed.keys@[i]).active,
        refreshed.drawn is None <==> has_active(opened_keys(secrets@, stored@, now)->Ok_0),
        refreshed.drawn is Some ==> refreshed.drawn->0.kid@ == kid@,
        forall|i: int, j: int|
            0 <= i < j < refreshed.keys@.len() && (#[trigger] refreshed.keys@[j]).active ==> (
            #[trigger] refreshed.keys@[i]).active,
{
    let list = opened_keys(secrets@, stored@, now)->Ok_0;
    let views = entries(refreshed.keys@);
    assert(views.len() == refreshed.keys@.len());
    assert forall|i: int| 0 <= i < views.len() implies views[i].active == (
    #[trigger] refreshed.keys@[i]).active by {}
    if has_active(list) {
        lemma_active_stays(list);
        law_keys_are_ordered(list);
    } else {
        let secret = choose|secret: Seq<u8>|
            {
                &&& secret.len() == 32
                &&& views == #[trigger] ordered(
                    taken_over(list, Entry { kid: kid@, secret, created_at: now, active: true }),
                )
                &&& refreshed.drawn matches Some(sealed) && sealed.kid@ == kid@
                    && crate::relay::crypto::opened(
                    secrets@,
                    sealed.nonce@,
                    sealed.ciphertext@,
                ) == Some(secret)
            };
        let fresh = Entry { kid: kid@, secret, created_at: now, active: true };
        let all = taken_over(list, fresh);
        assert(all[0] == fresh);
        assert(all[0].active);
        lemma_active_stays(all);
        law_keys_are_ordered(all);
    }
    let i = choose|i: int| 0 <= i < views.len() && (#[trigger] views[i]).active;
    assert(refreshed.keys@[i].active);
    assert forall|i: int, j: int|
        0 <= i < j < refreshed.keys@.len() && (#[trigger] refreshed.keys@[j]).active implies (
    #[trigger] refreshed.keys@[i]).active by {
        assert(!crate::relay::tokens::ranks_before(views[j], views[i]));
    }
}

proof fn lemma_active_stays(list: Seq<Entry>)
    requires
        has_active(list),
    ensures
        has_active(ordered(list)),
{
    broadcast use vstd::seq_lib::group_to_multiset_ensures;

    law_keys_are_ordered(list);
    let i = choose|i: int| 0 <= i < list.len() && (#[trigger] list[i]).active;
    let entry = list[i];
    assert(list.contains(entry));
    assert(list.to_multiset().count(entry) > 0);
    let sorted = ordered(list);
    assert(sorted.to_multiset().count(entry) > 0);
    assert(sorted.contains(entry));
    let j = choose|j: int| 0 <= j < sorted.len() && sorted[j] == entry;
    assert(sorted[j].active);
}

proof fn lemma_desired(pairs: Seq<Seq<char>>, i: int)
    requires
        0 <= i < pairs.len(),
        first_fault(pairs) is None,
        forall|j: int|
            i < j < pairs.len() ==> (split_at_first(#[trigger] pairs[j], '=')->0).0 != (
            split_at_first(pairs[i], '=')->0).0,
    ensures
        split_at_first(pairs[i], '=') is Some,
        ({
            let (name, raw) = split_at_first(pairs[i], '=')->0;
            desired(pairs).contains_key(name) && desired(pairs)[name] == meant(
                raw,
                json_value(raw),
            )
        }),
    decreases pairs.len(),
{
    if i < pairs.len() - 1 {
        let front = pairs.drop_last();
        assert forall|j: int| i < j < front.len() implies (split_at_first(
            #[trigger] front[j],
            '=',
        )->0).0 != (split_at_first(front[i], '=')->0).0 by {
            assert(front[j] == pairs[j] && front[i] == pairs[i]);
        }
        lemma_desired(front, i);
        assert(front[i] == pairs[i]);
        assert(pairs[pairs.len() - 1] == pairs.last());
    }
}

/// Every assignment counts unless a later one has its name: it sets that name to what its
/// value means. Whatever holds no sign of equality is refused.
pub proof fn law_assignments_set_their_names(
    pairs: &[String],
    i: int,
    name: Seq<char>,
    raw: Seq<char>,
    result: Result<Vec<Assignment>, String>,
)
    requires
        call_ensures(parse_assignments, (pairs,), result),
        0 <= i < pairs@.len(),
        split_at_first(pairs@[i]@, '=') == Some((name, raw)),
        forall|j: int|
            i < j < pairs@.len() ==> (split_at_first((#[trigger] pairs@[j])@, '=')->0).0 != name,
    ensures
        result is Ok <==> forall|j: int|
            0 <= j < pairs@.len() ==> split_at_first((#[trigger] pairs@[j])@, '=') is Some,
        (result matches Ok(list) ==> exists|k: int|
            0 <= k < list@.len() && (#[trigger] list@[k]).name@ == name && list@[k].value@ == (
            match json_value(raw) {
                Some(value) => value,
                None => json_string(raw),
            })),
{
    let all = texts(pairs@);
    lemma_faults(all);
    assert(forall|j: int| 0 <= j < all.len() ==> all[j] == (#[trigger] pairs@[j])@);
    if result is Ok {
        let list = result->Ok_0@;
        assert forall|j: int| i < j < all.len() implies (split_at_first(
            #[trigger] all[j],
            '=',
        )->0).0 != (split_at_first(all[i], '=')->0).0 by {
            assert(all[j] == pairs@[j]@ && all[i] == pairs@[i]@);
        }
        lemma_desired(all, i);
        assert(all[i] == pairs@[i]@);
        lemma_assigned(list);
        assert(assigned(list).contains_key(name));
    }
    if forall|j: int|
        0 <= j < pairs@.len() ==> split_at_first((#[trigger] pairs@[j])@, '=') is Some {
        assert forall|j: int| 0 <= j < all.len() implies split_at_first(
            #[trigger] all[j],
            '=',
        ) is Some by {
            assert(split_at_first(pairs@[j]@, '=') is Some);
        }
    } else {
        let j = choose|j: int|
            0 <= j < pairs@.len() && split_at_first((#[trigger] pairs@[j])@, '=') is None;
        assert(split_at_first(all[j], '=') is None);
    }
}

proof fn lemma_faults(pairs: Seq<Seq<char>>)
    ensures
        first_fault(pairs) is None <==> forall|j: int|
            0 <= j < pairs.len() ==> split_at_first(#[trigger] pairs[j], '=') is Some,
    decreases pairs.len(),
{
    if pairs.len() > 0 {
        let front = pairs.drop_last();
        lemma_faults(front);
        if forall|j: int| 0 <= j < pairs.len() ==> split_at_first(#[trigger] pairs[j], '=') is Some {
            assert forall|j: int| 0 <= j < front.len() implies split_at_first(
                #[trigger] front[j],
                '=',
            ) is Some by {
                assert(front[j] == pairs[j]);
            }
            assert(split_at_first(pairs[pairs.len() - 1], '=') is Some);
        } else if first_fault(pairs) is None {
            let j = choose|j: int|
                0 <= j < pairs.len() && split_at_first(#[trigger] pairs[j], '=') is None;
            if j < front.len() {
                assert(split_at_first(front[j], '=') is None);
            }
        }
    }
}

/// A probe is good if and only if the first line of the answer has the status for it.
pub proof fn law_probes_are_judged_by_their_status(response: &str, result: Result<(), String>)
    requires
        call_ensures(judge_probe, (response,), result),
    ensures
        result is Ok <==> exists|at: int|
            0 <= at <= first_line(response@).len() - 4 && #[trigger] first_line(
                response@,
            ).subrange(at, at + 4) == " 200"@,
{
    reveal_strlit(" 200");
    assert(" 200"@.len() == 4);
}

/// A change is told with its revision and what it changed.
pub proof fn law_changes_are_told(
    revision: i64,
    changed: String,
    names: &[String],
    named: &[String],
    line: String,
    none: String,
)
    requires
        names@.len() == 1,
        names@[0]@ == changed@,
        call_ensures(applied, (revision, names, named), line),
        call_ensures(no_changes, (revision,), none),
    ensures
        line@ == "revision "@ + signed_decimal(revision as int) + " applied ("@ + "1"@
            + " changed: "@ + changed@ + ")"@,
        none@ == "no changes; already at revision "@ + signed_decimal(revision as int),
{
    reveal_strlit("1");
    assert(crate::text::decimal(1) =~= "1"@);
    assert(texts(names@)[0] == names@[0]@);
}

/// Output is read from the earliest offset on; a hole before it is reported.
pub proof fn law_output_is_read_from_the_earliest(
    terminal_id: Uuid,
    rows: Vec<Chunk>,
    earliest: u64,
    result: ApiResult<Vec<u8>>,
)
    requires
        rows@.len() == 1,
        0 <= rows@[0].start,
        call_ensures(load_terminal_output, (terminal_id, &rows, earliest), result),
    ensures
        result is Ok <==> rows@[0].start <= earliest,
        result is Ok && earliest - rows@[0].start < rows@[0].bytes@.len() ==> result->Ok_0@
            == rows@[0].bytes@.skip(earliest - rows@[0].start),
        result is Ok && earliest - rows@[0].start >= rows@[0].bytes@.len()
            ==> result->Ok_0@.len() == 0,
        result is Err ==> result->Err_0@.status == 500,
{
    let views = crate::relay::repo::chunks_view(rows@);
    assert(views.len() == 1);
    assert(views[0] == rows@[0]@);
    assert(views.drop_first() =~= Seq::empty());
    let bytes = rows@[0].bytes@;
    if rows@[0].start <= earliest && earliest - rows@[0].start < bytes.len() {
        assert(bytes.skip(earliest - rows@[0].start) + Seq::<u8>::empty() =~= bytes.skip(
            earliest - rows@[0].start,
        ));
    }
    reveal_with_fuel(crate::relay::repo::read_chunks, 2);
}

/// A value that is recorded counts once, in its own bucket, and adds to the sum.
pub proof fn law_values_are_recorded_once(position: usize, millionths: u64)
    ensures
        forall|h: &mut Histogram| #[trigger]
            call_ensures(Histogram::record, (h, position, millionths), ()) && h.wf() && position
                < h@.buckets.len() ==> {
                &&& final(h)@.buckets.len() == h@.buckets.len()
                &&& final(h)@.bounds == h@.bounds
                &&& h@.buckets[position as int] < u64::MAX ==> final(h)@.buckets[position as int]
                    == h@.buckets[position as int] + 1
                &&& forall|i: int|
                    0 <= i < h@.buckets.len() && i != position ==> #[trigger] final(h)@.buckets[i]
                        == h@.buckets[i]
                &&& h@.sum + millionths <= u64::MAX ==> final(h)@.sum == h@.sum + millionths
                &&& h@.count < u64::MAX ==> final(h)@.count == h@.count + 1
            },
{
}

/// An old database gets what it lacks: the role of devices, whether terminals take input,
/// and where they came from.
pub proof fn law_old_databases_are_brought_up_to_date(columns: Vec<AddedColumn>)
    requires
        call_ensures(columns_to_add, (), columns),
    ensures
        columns@.len() == 4,
        columns@[0].table@ == "devices"@ && columns@[0].column@ == "role"@,
        columns@[1].table@ == "terminals"@ && columns@[1].column@ == "accepts_input"@,
        columns@[2].table@ == "terminals"@ && columns@[2].column@ == "origin"@,
        columns@[3].table@ == "terminals"@ && columns@[3].column@ == "requested_by_principal"@,
        columns@[0].definition@ == "TEXT NOT NULL DEFAULT 'publisher'"@,
        columns@[1].definition@ == "INTEGER NOT NULL DEFAULT 0"@,
{
    let views = columns@.map_values(
        |added: AddedColumn| (added.table@, added.column@, added.definition@),
    );
    assert(views.len() == columns@.len());
    assert(views[0] == (columns@[0].table@, columns@[0].column@, columns@[0].definition@));
    assert(views[1] == (columns@[1].table@, columns@[1].column@, columns@[1].definition@));
    assert(views[2] == (columns@[2].table@, columns@[2].column@, columns@[2].definition@));
    assert(views[3] == (columns@[3].table@, columns@[3].column@, columns@[3].definition@));
}

} // verus!
