//! Metrics as they are printed: families of lines, each with its two headings.

use crate::json::is_name;
use crate::text;
use crate::text::{begins_with, decimal, signed_decimal};
use vstd::prelude::*;

verus! {

/// One metric as it is printed: its name, what it is, and its samples, line by line.
pub struct Family {
    pub name: Seq<char>,
    pub help: Seq<char>,
    pub kind: Seq<char>,
    pub samples: Seq<Seq<char>>,
}

/// The line that says what a metric is.
pub open spec fn help_line(name: Seq<char>, help: Seq<char>) -> Seq<char> {
    "# HELP "@ + name + " "@ + help
}

/// The line that says of what kind a metric is.
pub open spec fn type_line(name: Seq<char>, kind: Seq<char>) -> Seq<char> {
    "# TYPE "@ + name + " "@ + kind
}

impl Family {
    /// The lines of the family: the two headings, and directly behind them the samples.
    pub open spec fn lines(self) -> Seq<Seq<char>> {
        seq![help_line(self.name, self.help), type_line(self.name, self.kind)] + self.samples
    }
}

/// A metric of one value.
pub open spec fn scalar(name: Seq<char>, help: Seq<char>, kind: Seq<char>, value: int) -> Family {
    Family { name, help, kind, samples: seq![name + " "@ + signed_decimal(value)] }
}

/// Lines as they are printed, each with its end.
pub open spec fn unlines(lines: Seq<Seq<char>>) -> Seq<char>
    decreases lines.len(),
{
    if lines.len() == 0 {
        Seq::empty()
    } else {
        unlines(lines.drop_last()) + lines.last() + "\n"@
    }
}

/// The lines of families in a row.
pub open spec fn all_lines(list: Seq<Family>) -> Seq<Seq<char>>
    decreases list.len(),
{
    if list.len() == 0 {
        Seq::empty()
    } else {
        all_lines(list.drop_last()) + list.last().lines()
    }
}

/// Families as they are printed.
pub open spec fn printed(list: Seq<Family>) -> Seq<char> {
    unlines(all_lines(list))
}

/// The line at which a family begins.
pub open spec fn start(list: Seq<Family>, i: int) -> int {
    all_lines(list.take(i)).len() as int
}

pub proof fn lemma_unlines(a: Seq<Seq<char>>, b: Seq<Seq<char>>)
    ensures
        unlines(a + b) == unlines(a) + unlines(b),
    decreases b.len(),
{
    if b.len() == 0 {
        assert(a + b =~= a);
        assert(unlines(a) + unlines(b) =~= unlines(a));
    } else {
        lemma_unlines(a, b.drop_last());
        assert((a + b).drop_last() =~= a + b.drop_last());
        assert((a + b).last() == b.last());
        assert(unlines(a + b) =~= unlines(a) + unlines(b));
    }
}

pub proof fn lemma_all_lines(a: Seq<Family>, b: Seq<Family>)
    ensures
        all_lines(a + b) == all_lines(a) + all_lines(b),
    decreases b.len(),
{
    if b.len() == 0 {
        assert(a + b =~= a);
        assert(all_lines(a) + all_lines(b) =~= all_lines(a));
    } else {
        lemma_all_lines(a, b.drop_last());
        assert((a + b).drop_last() =~= a + b.drop_last());
        assert((a + b).last() == b.last());
        assert(all_lines(a + b) =~= all_lines(a) + all_lines(b));
    }
}

/// Printing families in a row prints the one list behind the other.
pub proof fn lemma_printed(a: Seq<Family>, b: Seq<Family>)
    ensures
        printed(a + b) == printed(a) + printed(b),
{
    lemma_all_lines(a, b);
    lemma_unlines(all_lines(a), all_lines(b));
}

/// Printing one family prints its lines.
pub proof fn lemma_printed_one(family: Family)
    ensures
        printed(seq![family]) == unlines(family.lines()),
{
    let list = seq![family];
    assert(list.drop_last() =~= Seq::empty());
    assert(list.last() == family);
    reveal_with_fuel(all_lines, 2);
    assert(all_lines(list) =~= family.lines());
}

/// The lines of the family at `i` stand in a row from where it begins.
proof fn lemma_block(list: Seq<Family>, i: int)
    requires
        0 <= i < list.len(),
    ensures
        start(list, i + 1) == start(list, i) + list[i].lines().len(),
        start(list, i + 1) <= all_lines(list).len(),
        forall|m: int|
            0 <= m < list[i].lines().len() ==> all_lines(list)[start(list, i) + m]
                == #[trigger] list[i].lines()[m],
{
    let front = list.take(i + 1);
    let back = list.skip(i + 1);
    assert(list =~= front + back);
    lemma_all_lines(front, back);
    assert(front.drop_last() =~= list.take(i));
    assert(front.last() == list[i]);
}

/// Every line belongs to a family.
proof fn lemma_line_has_family(list: Seq<Family>, k: int) -> (j: int)
    requires
        0 <= k < all_lines(list).len(),
    ensures
        0 <= j < list.len(),
        start(list, j) <= k < start(list, j + 1),
    decreases list.len(),
{
    let shorter = list.drop_last();
    let last = list.len() - 1;
    assert(list.take(last) =~= shorter);
    assert(list.take(last + 1) =~= list);
    if k >= all_lines(shorter).len() {
        last
    } else {
        let j = lemma_line_has_family(shorter, k);
        assert(shorter.take(j) =~= list.take(j));
        assert(shorter.take(j + 1) =~= list.take(j + 1));
        j
    }
}

/// A line is the heading that says what the metric of this name is.
pub open spec fn is_help(line: Seq<char>, name: Seq<char>) -> bool {
    begins_with(line, "# HELP "@ + name + " "@)
}

/// A line is the heading that says of what kind the metric of this name is.
pub open spec fn is_type(line: Seq<char>, name: Seq<char>) -> bool {
    begins_with(line, "# TYPE "@ + name + " "@)
}

/// A line is a sample of the metric of this name. The only label is that of a bucket.
pub open spec fn is_sample(line: Seq<char>, name: Seq<char>) -> bool {
    ||| exists|value: int| line == name + " "@ + #[trigger] signed_decimal(value)
    ||| exists|bound: Seq<char>, n: nat| #[trigger] is_bucket(line, name, bound, n)
    ||| exists|sum: Seq<char>| line == #[trigger] (name + "_sum "@ + sum)
    ||| exists|n: nat| line == name + "_count "@ + #[trigger] decimal(n)
}

/// A line is the sample of a bucket.
pub open spec fn is_bucket(line: Seq<char>, name: Seq<char>, bound: Seq<char>, n: nat) -> bool {
    line == name + "_bucket{le=\""@ + bound + "\"} "@ + decimal(n)
}

/// A text stands on one line.
pub open spec fn is_one_line(text: Seq<char>) -> bool {
    forall|i: int| 0 <= i < text.len() ==> #[trigger] text[i] != '\n'
}

/// A family with a name of letters and underscores, whose lines are lines and whose
/// samples are its own.
pub open spec fn is_proper(family: Family) -> bool {
    &&& is_name(family.name)
    &&& family.name.len() > 0
    &&& is_one_line(family.help)
    &&& is_one_line(family.kind)
    &&& forall|i: int|
        0 <= i < family.samples.len() ==> is_one_line(#[trigger] family.samples[i]) && is_sample(
            family.samples[i],
            family.name,
        )
}

/// Names without spaces that stand at the same place in front of a space are the same.
proof fn lemma_same_name(mark: Seq<char>, a: Seq<char>, rest: Seq<char>, b: Seq<char>)
    requires
        is_name(a),
        is_name(b),
        begins_with(mark + a + " "@ + rest, mark + b + " "@),
    ensures
        a == b,
{
    reveal_strlit(" ");
    let line = mark + a + " "@ + rest;
    let prefix = mark + b + " "@;
    let size = mark.len() as int;
    assert(line.take(prefix.len() as int) == prefix);
    assert forall|i: int| 0 <= i < prefix.len() implies line[i] == prefix[i] by {
        assert(line.take(prefix.len() as int)[i] == prefix[i]);
    }
    if a.len() < b.len() {
        assert(line[size + a.len()] == ' ');
        assert(prefix[size + a.len()] == b[a.len() as int]);
    }
    if b.len() < a.len() {
        assert(prefix[size + b.len()] == ' ');
        assert(line[size + b.len()] == a[b.len() as int]);
    }
    assert forall|i: int| 0 <= i < a.len() implies a[i] == b[i] by {
        assert(line[size + i] == a[i]);
        assert(prefix[size + i] == b[i]);
    }
    assert(a =~= b);
}

/// What a line of one family is to another name: a heading of it only if the names agree,
/// and only the heading of that kind.
proof fn lemma_headings(family: Family, name: Seq<char>, m: int)
    requires
        is_proper(family),
        is_name(name),
        0 <= m < family.lines().len(),
    ensures
        is_help(family.lines()[m], name) <==> m == 0 && family.name == name,
        is_type(family.lines()[m], name) <==> m == 1 && family.name == name,
{
    reveal_strlit("# HELP ");
    reveal_strlit("# TYPE ");
    let line = family.lines()[m];
    let help = "# HELP "@ + name + " "@;
    let kind = "# TYPE "@ + name + " "@;
    if is_help(line, name) {
        assert(line.take(help.len() as int)[0] == help[0]);
        assert(line.take(help.len() as int)[2] == help[2]);
    }
    if is_type(line, name) {
        assert(line.take(kind.len() as int)[0] == kind[0]);
        assert(line.take(kind.len() as int)[2] == kind[2]);
    }
    if m == 0 {
        assert(line == help_line(family.name, family.help));
        assert(line[2] == 'H');
        if is_help(line, name) {
            lemma_same_name("# HELP "@, family.name, family.help, name);
        }
        if family.name == name {
            assert(line.take(help.len() as int) =~= help);
        }
    } else if m == 1 {
        assert(line == type_line(family.name, family.kind));
        assert(line[2] == 'T');
        if is_type(line, name) {
            lemma_same_name("# TYPE "@, family.name, family.kind, name);
        }
        if family.name == name {
            assert(line.take(kind.len() as int) =~= kind);
        }
    } else {
        assert(line == family.samples[m - 2]);
        assert(is_sample(line, family.name));
        assert(line[0] == family.name[0]);
    }
}

/// Of proper families with different names, each has its headings once, in one place, and
/// its samples directly behind them; and no line holds another.
pub proof fn lemma_headed_once(list: Seq<Family>, i: int, k: int)
    requires
        forall|j: int| 0 <= j < list.len() ==> is_proper(#[trigger] list[j]),
        forall|j: int, l: int|
            0 <= j < list.len() && 0 <= l < list.len() && (#[trigger] list[j]).name == (
            #[trigger] list[l]).name ==> j == l,
        0 <= i < list.len(),
        0 <= k < all_lines(list).len(),
    ensures
        is_one_line(all_lines(list)[k]),
        is_help(all_lines(list)[k], list[i].name) <==> k == start(list, i),
        is_type(all_lines(list)[k], list[i].name) <==> k == start(list, i) + 1,
        start(list, i) + 2 <= k < start(list, i + 1) ==> is_sample(
            all_lines(list)[k],
            list[i].name,
        ),
        start(list, i) + 2 + list[i].samples.len() == start(list, i + 1),
{
    let j = lemma_line_has_family(list, k);
    lemma_block(list, j);
    lemma_block(list, i);
    let m = k - start(list, j);
    let family = list[j];
    assert(all_lines(list)[k] == family.lines()[m]);
    lemma_headings(family, list[i].name, m);
    if j != i {
        lemma_starts(list, i, j);
        assert(family.name != list[i].name);
    }
    reveal_strlit("# HELP ");
    reveal_strlit("# TYPE ");
    reveal_strlit(" ");
    if m == 0 {
        assert(is_one_line(help_line(family.name, family.help)));
    } else if m == 1 {
        assert(is_one_line(type_line(family.name, family.kind)));
    } else {
        assert(family.lines()[m] == family.samples[m - 2]);
    }
}

/// Families that come earlier end before later ones begin.
proof fn lemma_starts(list: Seq<Family>, i: int, j: int)
    requires
        0 <= i < list.len(),
        0 <= j < list.len(),
    ensures
        i < j ==> start(list, i + 1) <= start(list, j),
        j < i ==> start(list, j + 1) <= start(list, i),
    decreases i + j,
{
    if i + 1 < j {
        lemma_starts(list, i, j - 1);
        lemma_block(list, j - 1);
    } else if j + 1 < i {
        lemma_starts(list, i - 1, j);
        lemma_block(list, i - 1);
    }
}

/// A number in digits stands on one line.
pub proof fn lemma_decimal_is_one_line(n: nat)
    ensures
        is_one_line(decimal(n)),
    decreases n,
{
    if n >= 10 {
        lemma_decimal_is_one_line(n / 10);
    }
}

/// A metric of one value is proper where its name and its help are.
pub proof fn lemma_scalar_is_proper(name: Seq<char>, help: Seq<char>, kind: Seq<char>, value: int)
    requires
        is_name(name),
        name.len() > 0,
        is_one_line(help),
        is_one_line(kind),
    ensures
        is_proper(scalar(name, help, kind, value)),
{
    reveal_strlit(" ");
    reveal_strlit("-");
    lemma_decimal_is_one_line(
        if value < 0 {
            (-value) as nat
        } else {
            value as nat
        },
    );
    let family = scalar(name, help, kind, value);
    assert(is_one_line(signed_decimal(value)));
    assert(family.samples[0] == name + " "@ + signed_decimal(value));
}

/// A metric of one value, to be printed.
#[derive(Debug)]
pub struct Scalar {
    pub name: &'static str,
    pub help: &'static str,
    pub kind: &'static str,
    pub value: i128,
}

impl View for Scalar {
    type V = Family;

    open spec fn view(&self) -> Family {
        scalar(self.name@, self.help@, self.kind@, self.value as int)
    }
}

/// Metrics of one value, as they are printed.
pub open spec fn scalars(list: Seq<Scalar>) -> Seq<Family> {
    list.map_values(|one: Scalar| one@)
}

/// Appends the two headings of a metric.
pub fn write_heading(out: &mut String, name: &str, help: &str, kind: &str)
    ensures
        final(out)@ == old(out)@ + unlines(seq![help_line(name@, help@), type_line(name@, kind@)]),
{
    out.append("# HELP ");
    out.append(name);
    out.append(" ");
    out.append(help);
    out.append("\n");
    out.append("# TYPE ");
    out.append(name);
    out.append(" ");
    out.append(kind);
    out.append("\n");
    proof {
        let lines = seq![help_line(name@, help@), type_line(name@, kind@)];
        lemma_two_lines(lines[0], lines[1]);
        assert(out@ =~= old(out)@ + unlines(lines));
    }
}

proof fn lemma_two_lines(a: Seq<char>, b: Seq<char>)
    ensures
        unlines(seq![a, b]) == a + "\n"@ + b + "\n"@,
{
    let lines = seq![a, b];
    assert(lines.drop_last() =~= seq![a]);
    assert(seq![a].drop_last() =~= Seq::<Seq<char>>::empty());
    assert(lines.last() == b && seq![a].last() == a);
    reveal_with_fuel(unlines, 2);
    assert(unlines(seq![a]) =~= a + "\n"@);
}

/// One more line is printed behind the others.
pub proof fn lemma_one_more_line(lines: Seq<Seq<char>>, line: Seq<char>)
    ensures
        unlines(lines.push(line)) == unlines(lines) + line + "\n"@,
{
    assert(lines.push(line).drop_last() =~= lines);
}

/// Appends metrics of one value.
pub fn write_scalars(out: &mut String, list: &Vec<Scalar>)
    requires
        forall|i: int| 0 <= i < list@.len() ==> (#[trigger] list@[i]).value > i128::MIN,
    ensures
        final(out)@ == old(out)@ + printed(scalars(list@)),
{
    let ghost before = out@;
    let ghost all = scalars(list@);
    let mut index: usize = 0;
    assert(out@ =~= before + printed(all.take(0)));
    while index < list.len()
        invariant
            index <= list@.len(),
            all == scalars(list@),
            out@ == before + printed(all.take(index as int)),
            forall|i: int| 0 <= i < list@.len() ==> (#[trigger] list@[i]).value > i128::MIN,
        decreases list@.len() - index,
    {
        let ghost sofar = out@;
        let one = &list[index];
        write_heading(out, one.name, one.help, one.kind);
        let ghost headed = out@;
        out.append(one.name);
        out.append(" ");
        out.append(text::signed_of(one.value).as_str());
        out.append("\n");
        proof {
            let family = one@;
            let heads = seq![help_line(one.name@, one.help@), type_line(one.name@, one.kind@)];
            let sample = one.name@ + " "@ + signed_decimal(one.value as int);
            lemma_one_more_line(heads, sample);
            assert(family.lines() =~= heads.push(sample));
            let front = all.take(index as int);
            assert(all.take(index + 1) =~= front + seq![family]);
            lemma_printed(front, seq![family]);
            lemma_printed_one(family);
            assert(out@ =~= sofar + unlines(family.lines()));
            assert(out@ =~= before + printed(all.take(index + 1)));
        }
        index = index + 1;
    }
    assert(all.take(all.len() as int) =~= all);
}

} // verus!
