//! The relay's command line: reading and changing settings offline, and probing a
//! running instance.

use crate::json;
use crate::json::{json_string, json_value};
use crate::relay::admin::{Setting, SettingDef};
use crate::text;
use crate::text::{option_view, signed_decimal, split_at_first, texts};
use vstd::prelude::*;
use vstd::utf8::*;

verus! {

/// One text comes before another in the order of their bytes.
pub open spec fn precedes(a: Seq<u8>, b: Seq<u8>) -> bool
    decreases a.len(),
{
    if b.len() == 0 {
        false
    } else if a.len() == 0 {
        true
    } else if a[0] != b[0] {
        a[0] < b[0]
    } else {
        precedes(a.drop_first(), b.drop_first())
    }
}

proof fn lemma_precedes_is_total(a: Seq<u8>, b: Seq<u8>)
    ensures
        a == b ==> !precedes(a, b),
        a != b ==> (precedes(a, b) <==> !precedes(b, a)),
    decreases a.len(),
{
    if a.len() > 0 && b.len() > 0 {
        lemma_precedes_is_total(a.drop_first(), b.drop_first());
        if a[0] == b[0] && a.drop_first() == b.drop_first() {
            assert(a =~= seq![a[0]] + a.drop_first());
            assert(b =~= seq![b[0]] + b.drop_first());
        }
    } else if a.len() == 0 && b.len() == 0 {
        assert(a =~= b);
    }
}

proof fn lemma_precedes_chains(a: Seq<u8>, b: Seq<u8>, c: Seq<u8>)
    requires
        precedes(a, b),
        precedes(b, c),
    ensures
        precedes(a, c),
    decreases a.len(),
{
    if a.len() > 0 && a[0] == b[0] && b[0] == c[0] {
        lemma_precedes_chains(a.drop_first(), b.drop_first(), c.drop_first());
    }
}

fn comes_before(a: &[u8], b: &[u8]) -> (before: bool)
    ensures
        before == precedes(a@, b@),
{
    let mut index: usize = 0;
    assert(a@.skip(0) =~= a@);
    assert(b@.skip(0) =~= b@);
    while index < a.len() && index < b.len() && a[index] == b[index]
        invariant
            index <= a@.len(),
            index <= b@.len(),
            precedes(a@, b@) == precedes(a@.skip(index as int), b@.skip(index as int)),
        decreases a@.len() - index,
    {
        assert(a@.skip(index as int).drop_first() =~= a@.skip(index + 1));
        assert(b@.skip(index as int).drop_first() =~= b@.skip(index + 1));
        index = index + 1;
    }
    if index == b.len() {
        false
    } else if index == a.len() {
        true
    } else {
        a[index] < b[index]
    }
}

/// The value that an argument assigns, as JSON. `reading` is what it comes to as JSON, if
/// it is JSON, so that truth values, numbers and lists work; anything else is a text, so
/// that paths and origins need no quoting.
pub open spec fn meant(raw: Seq<char>, reading: Option<Seq<char>>) -> Seq<char> {
    match reading {
        Some(value) => value,
        None => json_string(raw),
    }
}

/// The value that an argument assigns, given what it comes to as JSON.
pub fn value_of(raw: &str, reading: Option<String>) -> (value: String)
    ensures
        value@ == meant(raw@, option_view(reading)),
{
    match reading {
        Some(value) => value,
        None => json::string(raw),
    }
}

/// A setting and the value that it is to get, as JSON.
#[derive(Debug)]
pub struct Assignment {
    pub name: String,
    pub value: String,
}

/// The assignments of a list; of two with the same name the later counts.
pub open spec fn assigned(list: Seq<Assignment>) -> Map<Seq<char>, Seq<char>>
    decreases list.len(),
{
    if list.len() == 0 {
        Map::empty()
    } else {
        assigned(list.drop_last()).insert(list.last().name@, list.last().value@)
    }
}

/// The names of a list of assignments.
pub open spec fn names_of(list: Seq<Assignment>) -> Seq<Seq<char>> {
    list.map_values(|assignment: Assignment| assignment.name@)
}

/// The names stand in the order of their bytes, each once.
pub open spec fn in_order(names: Seq<Seq<char>>) -> bool {
    forall|i: int, j: int|
        0 <= i < j < names.len() ==> precedes(
            encode_utf8(#[trigger] names[i]),
            encode_utf8(#[trigger] names[j]),
        )
}

/// What a list in order assigns.
pub proof fn lemma_assigned(list: Seq<Assignment>)
    requires
        in_order(names_of(list)),
    ensures
        forall|name: Seq<char>| #[trigger]
            assigned(list).contains_key(name) <==> exists|i: int|
                0 <= i < list.len() && (#[trigger] list[i]).name@ == name,
        forall|i: int|
            0 <= i < list.len() ==> assigned(list)[(#[trigger] list[i]).name@] == list[i].value@,
    decreases list.len(),
{
    if list.len() > 0 {
        let front = list.drop_last();
        let names = names_of(list);
        let last = list.len() - 1;
        assert(names_of(front) =~= names.drop_last());
        lemma_assigned(front);
        assert forall|name: Seq<char>| #[trigger]
            assigned(list).contains_key(name) <==> exists|i: int|
                0 <= i < list.len() && (#[trigger] list[i]).name@ == name by {
            if assigned(front).contains_key(name) {
                let i = choose|i: int| 0 <= i < front.len() && (#[trigger] front[i]).name@ == name;
                assert(list[i].name@ == name);
            }
            if exists|i: int| 0 <= i < list.len() && (#[trigger] list[i]).name@ == name {
                let i = choose|i: int| 0 <= i < list.len() && (#[trigger] list[i]).name@ == name;
                if i < last {
                    assert(front[i].name@ == name);
                }
            }
            assert(list[last].name@ == list.last().name@);
        }
        assert forall|i: int| 0 <= i < list.len() implies assigned(list)[(
        #[trigger] list[i]).name@] == list[i].value@ by {
            if i < last {
                assert(front[i] == list[i]);
                assert(precedes(encode_utf8(names[i]), encode_utf8(names[last])));
                lemma_precedes_is_total(encode_utf8(names[i]), encode_utf8(names[last]));
            }
        }
    }
}

/// A list in order that took in one assignment assigns what it did before and that.
proof fn lemma_taken_in(before: Seq<Assignment>, after: Seq<Assignment>, at: int)
    requires
        in_order(names_of(before)),
        in_order(names_of(after)),
        0 <= at <= before.len(),
        at < after.len(),
        after == before.insert(at, after[at]) || (at < before.len() && before[at].name@
            == after[at].name@ && after == before.update(at, after[at])),
    ensures
        assigned(after) == assigned(before).insert(after[at].name@, after[at].value@),
{
    lemma_assigned(before);
    lemma_assigned(after);
    let new = after[at];
    let whole = assigned(before).insert(new.name@, new.value@);
    assert forall|name: Seq<char>| assigned(after).contains_key(name) <==> whole.contains_key(
        name,
    ) by {
        if assigned(after).contains_key(name) {
            let i = choose|i: int| 0 <= i < after.len() && (#[trigger] after[i]).name@ == name;
            if i != at {
                let j = if after.len() == before.len() || i < at {
                    i
                } else {
                    i - 1
                };
                assert(before[j].name@ == name);
            }
        }
        if assigned(before).contains_key(name) {
            let i = choose|i: int| 0 <= i < before.len() && (#[trigger] before[i]).name@ == name;
            let j = if after.len() == before.len() || i < at {
                i
            } else {
                i + 1
            };
            assert(after[j].name@ == name);
        }
    }
    assert forall|name: Seq<char>| #[trigger] assigned(after).contains_key(name) implies assigned(
        after,
    )[name] == whole[name] by {
        let i = choose|i: int| 0 <= i < after.len() && (#[trigger] after[i]).name@ == name;
        if i == at {
        } else {
            let j = if after.len() == before.len() || i < at {
                i
            } else {
                i - 1
            };
            assert(before[j] == after[i]);
            let names = names_of(after);
            if i < at {
                assert(precedes(encode_utf8(names[i]), encode_utf8(names[at])));
            } else {
                assert(precedes(encode_utf8(names[at]), encode_utf8(names[i])));
            }
            lemma_precedes_is_total(encode_utf8(names[i]), encode_utf8(names[at]));
        }
    }
    assert(assigned(after) =~= whole);
}

/// Assigns a value; one that was assigned before is replaced.
fn assign(list: &mut Vec<Assignment>, assignment: Assignment)
    requires
        in_order(names_of(old(list)@)),
    ensures
        in_order(names_of(final(list)@)),
        assigned(final(list)@) == assigned(old(list)@).insert(assignment.name@, assignment.value@),
{
    let ghost before = list@;
    let ghost wanted = encode_utf8(assignment.name@);
    let ghost new = assignment;
    let mut at: usize = 0;
    while at < list.len() && comes_before(
        list[at].name.as_str().as_bytes(),
        assignment.name.as_str().as_bytes(),
    )
        invariant
            at <= list@.len(),
            list@ == before,
            wanted == encode_utf8(assignment.name@),
            forall|i: int|
                0 <= i < at ==> precedes(encode_utf8((#[trigger] before[i]).name@), wanted),
        ensures
            at <= list@.len(),
            list@ == before,
            forall|i: int|
                0 <= i < at ==> precedes(encode_utf8((#[trigger] before[i]).name@), wanted),
            at < list@.len() ==> !precedes(encode_utf8(before[at as int].name@), wanted),
        decreases list@.len() - at,
    {
        at = at + 1;
    }
    let ghost names = names_of(before);
    if at < list.len() && text::same(list[at].name.as_str(), assignment.name.as_str()) {
        list[at] = assignment;
        proof {
            assert(names_of(list@) =~= names);
            assert(list@ =~= before.update(at as int, new));
            lemma_taken_in(before, list@, at as int);
        }
    } else {
        list.insert(at, assignment);
        proof {
            let after = names_of(list@);
            if at < before.len() {
                text::lemma_same_bytes(before[at as int].name@, new.name@);
                lemma_precedes_is_total(encode_utf8(before[at as int].name@), wanted);
                assert(precedes(wanted, encode_utf8(names[at as int])));
            }
            assert forall|i: int, j: int| 0 <= i < j < after.len() implies precedes(
                encode_utf8(#[trigger] after[i]),
                encode_utf8(#[trigger] after[j]),
            ) by {
                let k = if j > at {
                    j - 1
                } else {
                    j
                };
                if i == at {
                    assert(after[j] == names[k]);
                    if k > at {
                        assert(precedes(encode_utf8(names[at as int]), encode_utf8(names[k])));
                        lemma_precedes_chains(
                            wanted,
                            encode_utf8(names[at as int]),
                            encode_utf8(names[k]),
                        );
                    }
                } else if j == at {
                    assert(after[i] == before[i].name@);
                } else {
                    let h = if i > at {
                        i - 1
                    } else {
                        i
                    };
                    assert(after[i] == names[h]);
                    assert(after[j] == names[k]);
                }
            }
            lemma_taken_in(before, list@, at as int);
        }
    }
}

/// What a settings command asks for.
#[derive(Debug)]
pub enum SettingsCommand {
    /// Print these settings, or all.
    Print(Vec<String>),
    /// Apply these, each once, in the order of their names.
    Apply(Vec<Assignment>),
}

/// The first pair that assigns nothing.
pub open spec fn first_fault(pairs: Seq<Seq<char>>) -> Option<Seq<char>>
    decreases pairs.len(),
{
    if pairs.len() == 0 {
        None
    } else {
        match first_fault(pairs.drop_last()) {
            Some(pair) => Some(pair),
            None => if split_at_first(pairs.last(), '=') is None {
                Some(pairs.last())
            } else {
                None
            },
        }
    }
}

/// What a list of pairs assigns; of two with the same name the later counts.
pub open spec fn desired(pairs: Seq<Seq<char>>) -> Map<Seq<char>, Seq<char>>
    decreases pairs.len(),
{
    if pairs.len() == 0 {
        Map::empty()
    } else {
        let (name, raw) = split_at_first(pairs.last(), '=')->0;
        desired(pairs.drop_last()).insert(name, meant(raw, json_value(raw)))
    }
}

proof fn lemma_fault_stays(pairs: Seq<Seq<char>>, size: int)
    requires
        0 <= size <= pairs.len(),
        first_fault(pairs.take(size)) is Some,
    ensures
        first_fault(pairs) == first_fault(pairs.take(size)),
    decreases pairs.len(),
{
    if size < pairs.len() {
        assert(pairs.drop_last().take(size) =~= pairs.take(size));
        lemma_fault_stays(pairs.drop_last(), size);
    } else {
        assert(pairs.take(size) =~= pairs);
    }
}

/// Reads `NAME=VALUE` pairs, with values as [`value_of`] reads them.
pub fn parse_assignments(pairs: &[String]) -> (result: Result<Vec<Assignment>, String>)
    ensures
        match result {
            Ok(list) => {
                &&& first_fault(texts(pairs@)) is None
                &&& pairs@.len() > 0
                &&& in_order(names_of(list@))
                &&& assigned(list@) == desired(texts(pairs@))
            },
            Err(message) => match first_fault(texts(pairs@)) {
                Some(pair) => message@ == "expected NAME=VALUE, got: "@ + pair,
                None => pairs@.len() == 0 && message@ == "no settings supplied"@,
            },
        },
{
    let ghost all = texts(pairs@);
    let mut list: Vec<Assignment> = Vec::new();
    let mut index: usize = 0;
    while index < pairs.len()
        invariant
            index <= pairs@.len(),
            all == texts(pairs@),
            in_order(names_of(list@)),
            first_fault(all.take(index as int)) is None,
            assigned(list@) == desired(all.take(index as int)),
        decreases pairs@.len() - index,
    {
        proof {
            let front = all.take(index + 1);
            assert(front.drop_last() =~= all.take(index as int));
            assert(front.last() == pairs@[index as int]@);
        }
        match text::split_once(pairs[index].as_str(), '=') {
            Some((name, raw)) => {
                let value = value_of(raw.as_str(), json::reread(raw.as_str()));
                assign(&mut list, Assignment { name, value });
            },
            None => {
                proof {
                    lemma_fault_stays(all, index + 1);
                }
                return Err(
                    "expected NAME=VALUE, got: ".to_owned().concat(pairs[index].as_str()),
                );
            },
        }
        index = index + 1;
    }
    assert(all.take(all.len() as int) =~= all);
    if pairs.len() == 0 {
        return Err("no settings supplied".to_owned());
    }
    Ok(list)
}

fn rest_of(args: &[String], from: usize) -> (rest: Vec<String>)
    requires
        from <= args@.len(),
    ensures
        texts(rest@) == texts(args@).skip(from as int),
{
    let mut rest: Vec<String> = Vec::new();
    let mut index: usize = from;
    while index < args.len()
        invariant
            from <= index <= args@.len(),
            texts(rest@) == texts(args@).subrange(from as int, index as int),
        decreases args@.len() - index,
    {
        let copy = args[index].as_str().to_owned();
        let ghost before = texts(rest@);
        rest.push(copy);
        index = index + 1;
        assert(texts(rest@) =~= before.push(args@[index - 1]@));
        assert(texts(rest@) =~= texts(args@).subrange(from as int, index as int));
    }
    assert(texts(args@).subrange(from as int, args@.len() as int) =~= texts(args@).skip(
        from as int,
    ));
    rest
}

/// Reads a settings command; without any argument it prints.
pub fn settings_command(args: &[String]) -> (result: Result<SettingsCommand, String>)
    ensures
        ({
            let action = if args@.len() == 0 {
                "get"@
            } else {
                args@[0]@
            };
            let rest = if args@.len() == 0 {
                Seq::<Seq<char>>::empty()
            } else {
                texts(args@).skip(1)
            };
            match result {
                Ok(SettingsCommand::Print(wanted)) => action == "get"@ && texts(wanted@) == rest,
                Ok(SettingsCommand::Apply(list)) => {
                    &&& action == "set"@
                    &&& rest.len() > 0
                    &&& first_fault(rest) is None
                    &&& in_order(names_of(list@))
                    &&& assigned(list@) == desired(rest)
                },
                Err(message) => if action == "set"@ {
                    match first_fault(rest) {
                        Some(pair) => message@ == "expected NAME=VALUE, got: "@ + pair,
                        None => rest.len() == 0 && message@ == "no settings supplied"@,
                    }
                } else {
                    action != "get"@ && message@ == "unknown settings action: "@ + action
                        + " (expected `get` or `set`)"@
                },
            }
        }),
{
    proof {
        reveal_strlit("get");
        reveal_strlit("set");
        assert("get"@[0] != "set"@[0]);
    }
    if args.len() == 0 {
        let wanted: Vec<String> = Vec::new();
        assert(texts(wanted@) =~= Seq::<Seq<char>>::empty());
        return Ok(SettingsCommand::Print(wanted));
    }
    let action = args[0].as_str();
    if text::same(action, "get") {
        return Ok(SettingsCommand::Print(rest_of(args, 1)));
    }
    if text::same(action, "set") {
        let rest = rest_of(args, 1);
        assert(texts(rest@).len() == rest@.len());
        return match parse_assignments(rest.as_slice()) {
            Ok(list) => Ok(SettingsCommand::Apply(list)),
            Err(message) => Err(message),
        };
    }
    Err(
        "unknown settings action: ".to_owned().concat(action).concat(
            " (expected `get` or `set`)",
        ),
    )
}

/// Whether a setting is among those asked for: all are where none is named.
pub fn is_wanted(name: &str, wanted: &[String]) -> (asked: bool)
    ensures
        asked == (wanted@.len() == 0 || texts(wanted@).contains(name@)),
{
    wanted.len() == 0 || text::holds(wanted, name)
}

/// How a setting is printed. A secret's value is never printed, only how it is
/// configured.
pub fn setting_line(def: &SettingDef, secret_form: &str, value: &str) -> (line: String)
    ensures
        line@ == (if def.secret {
            def.name@ + " = <"@ + secret_form@ + ">"@
        } else {
            def.name@ + " = "@ + value@
        }),
{
    if def.secret {
        def.name.as_str().to_owned().concat(" = <").concat(secret_form).concat(">")
    } else {
        def.name.as_str().to_owned().concat(" = ").concat(value)
    }
}

/// The first name in a list that another does not hold.
pub open spec fn first_unknown(known: Seq<Seq<char>>, wanted: Seq<Seq<char>>) -> Option<Seq<char>>
    decreases wanted.len(),
{
    if wanted.len() == 0 {
        None
    } else if known.contains(wanted[0]) {
        first_unknown(known, wanted.drop_first())
    } else {
        Some(wanted[0])
    }
}

/// Refuses a setting that does not exist.
pub fn check_known(known: &[String], wanted: &[String]) -> (result: Result<(), String>)
    ensures
        match result {
            Ok(()) => first_unknown(texts(known@), texts(wanted@)) is None,
            Err(message) => first_unknown(texts(known@), texts(wanted@)) is Some && message@
                == "unknown setting: "@ + first_unknown(texts(known@), texts(wanted@))->0,
        },
{
    let ghost all = texts(wanted@);
    let mut index: usize = 0;
    assert(all.skip(0) =~= all);
    while index < wanted.len()
        invariant
            index <= wanted@.len(),
            all == texts(wanted@),
            first_unknown(texts(known@), all) == first_unknown(
                texts(known@),
                all.skip(index as int),
            ),
        decreases wanted@.len() - index,
    {
        assert(all.skip(index as int)[0] == wanted@[index as int]@);
        if !text::holds(known, wanted[index].as_str()) {
            return Err("unknown setting: ".to_owned().concat(wanted[index].as_str()));
        }
        assert(all.skip(index as int).drop_first() =~= all.skip(index + 1));
        index = index + 1;
    }
    Ok(())
}

/// A setting of that name is the one at `i`.
pub open spec fn is_setting(settings: Seq<Setting>, name: Seq<char>, i: int) -> bool {
    &&& 0 <= i < settings.len()
    &&& settings[i].def.name@ == name
    &&& forall|j: int| 0 <= j < i ==> (#[trigger] settings[j]).def.name@ != name
}

/// Whether an assignment gives a setting the value that is stored for it already. What is
/// stored of a secret is sealed and cannot be compared, so for one that is never so.
pub open spec fn is_stored(settings: Seq<Setting>, name: Seq<char>, value: Seq<char>) -> bool {
    exists|i: int| #[trigger]
        is_setting(settings, name, i) && !settings[i].def.secret && option_view(settings[i].stored)
            == Some(value)
}

/// Every assignment is stored as it is.
pub open spec fn are_stored(assignments: Seq<Assignment>, settings: Seq<Setting>) -> bool {
    forall|i: int|
        0 <= i < assignments.len() ==> is_stored(
            settings,
            (#[trigger] assignments[i]).name@,
            assignments[i].value@,
        )
}

fn stores(settings: &[Setting], name: &str, value: &str) -> (stored: bool)
    ensures
        stored == is_stored(settings@, name@, value@),
{
    let mut index: usize = 0;
    while index < settings.len()
        invariant
            index <= settings@.len(),
            forall|j: int| 0 <= j < index ==> (#[trigger] settings@[j]).def.name@ != name@,
        decreases settings@.len() - index,
    {
        if text::same(settings[index].def.name.as_str(), name) {
            assert(is_setting(settings@, name@, index as int));
            assert forall|i: int| #[trigger] is_setting(settings@, name@, i) implies i == index by {
                assert(settings@[index as int].def.name@ == name@);
            }
            if settings[index].def.secret {
                return false;
            }
            return match &settings[index].stored {
                Some(stored) => text::same(stored.as_str(), value),
                None => false,
            };
        }
        index = index + 1;
    }
    false
}

/// Applying the assignments would change nothing, so that repeated runs do not add to the
/// revisions. The settings hold no fractions: two values are the same where their JSON is.
pub fn is_unchanged(assignments: &[Assignment], settings: &[Setting]) -> (unchanged: bool)
    ensures
        unchanged == are_stored(assignments@, settings@),
{
    let mut index: usize = 0;
    while index < assignments.len()
        invariant
            index <= assignments@.len(),
            forall|i: int|
                0 <= i < index ==> is_stored(
                    settings@,
                    (#[trigger] assignments@[i]).name@,
                    assignments@[i].value@,
                ),
        decreases assignments@.len() - index,
    {
        let assignment = &assignments[index];
        if !stores(settings, assignment.name.as_str(), assignment.value.as_str()) {
            return false;
        }
        index = index + 1;
    }
    true
}

/// Names in a row, separated by commas.
pub open spec fn comma_list(names: Seq<Seq<char>>) -> Seq<char>
    decreases names.len(),
{
    if names.len() == 0 {
        Seq::empty()
    } else if names.len() == 1 {
        names[0]
    } else {
        comma_list(names.drop_last()) + ", "@ + names.last()
    }
}

fn join_names(names: &[String]) -> (line: String)
    ensures
        line@ == comma_list(texts(names@)),
{
    let ghost all = texts(names@);
    let mut line = String::new();
    let mut index: usize = 0;
    while index < names.len()
        invariant
            index <= names@.len(),
            all == texts(names@),
            line@ == comma_list(all.take(index as int)),
        decreases names@.len() - index,
    {
        proof {
            let front = all.take(index + 1);
            assert(front.drop_last() =~= all.take(index as int));
            assert(front.last() == names@[index as int]@);
            if index == 0 {
                assert(line@ + names@[0]@ =~= names@[0]@);
            }
        }
        if index > 0 {
            line = line.concat(", ");
        }
        line = line.concat(names[index].as_str());
        index = index + 1;
    }
    assert(all.take(all.len() as int) =~= all);
    line
}

/// What is printed where nothing changes.
pub fn no_changes(revision: i64) -> (line: String)
    ensures
        line@ == "no changes; already at revision "@ + signed_decimal(revision as int),
{
    "no changes; already at revision ".to_owned().concat(
        text::signed_of(revision as i128).as_str(),
    )
}

/// What is printed once assignments have been applied: the settings that changed, or
/// those that were named if none did.
pub fn applied(revision: i64, changed: &[String], named: &[String]) -> (line: String)
    ensures
        line@ == "revision "@ + signed_decimal(revision as int) + " applied ("@ + text::decimal(
            changed@.len(),
        ) + " changed: "@ + comma_list(
            if changed@.len() == 0 {
                texts(named@)
            } else {
                texts(changed@)
            },
        ) + ")"@,
{
    let names = if changed.len() == 0 {
        join_names(named)
    } else {
        join_names(changed)
    };
    "revision ".to_owned().concat(text::signed_of(revision as i128).as_str()).concat(
        " applied (",
    ).concat(text::decimal_of(changed.len() as u64).as_str()).concat(" changed: ").concat(
        names.as_str(),
    ).concat(")")
}

/// The request that probes a running instance.
pub fn probe_request(target: &str, path: &str) -> (request: String)
    ensures
        request@ == "GET "@ + path@ + " HTTP/1.1\r\nHost: "@ + target@
            + "\r\nConnection: close\r\n\r\n"@,
{
    "GET ".to_owned().concat(path).concat(" HTTP/1.1\r\nHost: ").concat(target).concat(
        "\r\nConnection: close\r\n\r\n",
    )
}

/// The first line of a text, without its line ending.
pub open spec fn first_line(text: Seq<char>) -> Seq<char> {
    match split_at_first(text, '\n') {
        None => text,
        Some((line, rest)) => if line.len() > 0 && line.last() == '\r' {
            line.drop_last()
        } else {
            line
        },
    }
}

/// One text occurs in another.
pub open spec fn occurs(text: Seq<char>, part: Seq<char>) -> bool {
    exists|at: int| 0 <= at <= text.len() - part.len() && #[trigger] text.subrange(
        at,
        at + part.len(),
    ) == part
}

fn contains(whole: &str, part: &str) -> (found: bool)
    ensures
        found == occurs(whole@, part@),
{
    let list = text::characters(whole);
    let size: usize = text::characters(part).len();
    if list.len() < size {
        return false;
    }
    let mut at: usize = 0;
    while at <= list.len() - size
        invariant
            list@ == whole@,
            size == part@.len(),
            size <= list@.len(),
            at <= list@.len() - size + 1,
            forall|i: int|
                0 <= i < at ==> #[trigger] whole@.subrange(i, i + part@.len()) != part@,
        decreases list@.len() - at + 1,
    {
        if text::same(text::string_of(&list, at, at + size).as_str(), part) {
            assert(whole@.subrange(at as int, at + part@.len()) == part@);
            return true;
        }
        if at == list.len() - size {
            return false;
        }
        at = at + 1;
    }
    false
}

/// Judges the text of a probe's response by its status line.
pub fn judge_probe(response: &str) -> (result: Result<(), String>)
    ensures
        match result {
            Ok(()) => occurs(first_line(response@), " 200"@),
            Err(message) => !occurs(first_line(response@), " 200"@) && message@
                == "unexpected status: "@ + first_line(response@),
        },
{
    let status = match text::split_once(response, '\n') {
        None => response.to_owned(),
        Some((line, rest)) => {
            let list = text::characters(line.as_str());
            if list.len() > 0 && list[list.len() - 1] == '\r' {
                let front = text::string_of(&list, 0, list.len() - 1);
                assert(front@ =~= line@.drop_last());
                front
            } else {
                line
            }
        },
    };
    if contains(status.as_str(), " 200") {
        Ok(())
    } else {
        Err("unexpected status: ".to_owned().concat(status.as_str()))
    }
}

/// Judges a probe's response.
pub fn probe_health(response: &[u8]) -> (result: Result<(), String>)
    ensures
        ({
            let status = first_line(text::lossy_text(response@));
            match result {
                Ok(()) => occurs(status, " 200"@),
                Err(message) => !occurs(status, " 200"@) && message@ == "unexpected status: "@
                    + status,
            }
        }),
{
    judge_probe(text::lossy(response).as_str())
}

/// The filter for log events at a level: the noisier dependencies stay quiet.
pub fn log_filter(level: &str) -> (filter: String)
    ensures
        filter@ == level@ + ",hyper=warn,rustls=warn,h2=warn,tower=warn"@,
{
    level.to_owned().concat(",hyper=warn,rustls=warn,h2=warn,tower=warn")
}

} // verus!
