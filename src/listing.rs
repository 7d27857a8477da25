//! The table of commands that `--list` shows.
use vstd::prelude::*;

use crate::table::{CommandModel, CommandSpec, RouteTable};
use crate::text::{first_line, first_line_of, pad_to_width, padded, run, run_of, trim, trim_of};

verus! {

/// Heading of the name column.
pub const TITLE: &'static str = "Command";

/// Heading of the summary column.
pub const HELP: &'static str = "Help";

/// What stands between the two columns.
pub const SEPARATOR: &'static str = " | ";

/// The line that closes the listing.
pub const HINT: &'static str = "Use `help <command>` for more information on a specific command.";

/// The name an entry is listed under; an unnamed entry has an empty one.
pub open spec fn label_of(e: CommandModel) -> Seq<char> {
    match e.name {
        Some(n) => n,
        None => Seq::empty(),
    }
}

/// The one-line summary of an entry: the first line of its trimmed usage.
pub open spec fn summary_of(e: CommandModel) -> Seq<char> {
    first_line_of(trim_of(e.usage))
}

/// The length of the longest label among `s`, 0 for none.
pub open spec fn longest_label(s: Seq<CommandModel>) -> nat
    decreases s.len(),
{
    if s.len() == 0 {
        0
    } else {
        let m = longest_label(s.drop_last());
        let l = label_of(s.last()).len();
        if l > m {
            l
        } else {
            m
        }
    }
}

/// The length of the longest summary among `s`, 0 for none.
pub open spec fn longest_summary(s: Seq<CommandModel>) -> nat
    decreases s.len(),
{
    if s.len() == 0 {
        0
    } else {
        let m = longest_summary(s.drop_last());
        let l = summary_of(s.last()).len();
        if l > m {
            l
        } else {
            m
        }
    }
}

/// Width of the name column: the longest label, and at least the heading.
pub open spec fn name_width(s: Seq<CommandModel>) -> nat {
    if longest_label(s) > TITLE@.len() {
        longest_label(s)
    } else {
        TITLE@.len()
    }
}

/// Width of the summary column.
pub open spec fn help_width(s: Seq<CommandModel>) -> nat {
    longest_summary(s)
}

/// One line of the listing for entry `e`.
pub open spec fn row_of(e: CommandModel, w: nat) -> Seq<char> {
    padded(label_of(e), w) + SEPARATOR@ + summary_of(e)
}

/// The lines of the listing: heading, a rule of dashes across both columns,
/// one row per entry in table order, an empty line and the closing hint.
pub open spec fn listing_of(s: Seq<CommandModel>) -> Seq<Seq<char>> {
    let nw = name_width(s);
    let hw = help_width(s);
    seq![padded(TITLE@, nw) + SEPARATOR@ + HELP@, run_of('-', nw + 3 + hw)]
        + s.map_values(|e: CommandModel| row_of(e, nw))
        + seq![Seq::empty(), HINT@]
}

/// The longest label bounds every label and, for a non-empty table, is the
/// length of one of them.
pub proof fn lemma_longest_label(s: Seq<CommandModel>)
    ensures
        forall|i: int| 0 <= i < s.len() ==> label_of(#[trigger] s[i]).len() <= longest_label(s),
        s.len() == 0 ==> longest_label(s) == 0,
        s.len() > 0 ==> exists|i: int| 0 <= i < s.len() && label_of(#[trigger] s[i]).len() == longest_label(s),
    decreases s.len(),
{
    if s.len() > 0 {
        let d = s.drop_last();
        lemma_longest_label(d);
        assert forall|i: int| 0 <= i < s.len() implies label_of(#[trigger] s[i]).len() <= longest_label(s) by {
            if i < d.len() {
                assert(d[i] == s[i]);
            }
        }
        if label_of(s.last()).len() <= longest_label(d) && d.len() > 0 {
            let j = choose|j: int| 0 <= j < d.len() && label_of(#[trigger] d[j]).len() == longest_label(d);
            assert(d[j] == s[j]);
        }
        assert(label_of(s[s.len() - 1]).len() == label_of(s.last()).len());
    }
}

/// The longest summary bounds every summary and, for a non-empty table, is
/// the length of one of them.
pub proof fn lemma_longest_summary(s: Seq<CommandModel>)
    ensures
        forall|i: int| 0 <= i < s.len() ==> summary_of(#[trigger] s[i]).len() <= longest_summary(s),
        s.len() == 0 ==> longest_summary(s) == 0,
        s.len() > 0 ==> exists|i: int| 0 <= i < s.len() && summary_of(#[trigger] s[i]).len() == longest_summary(s),
    decreases s.len(),
{
    if s.len() > 0 {
        let d = s.drop_last();
        lemma_longest_summary(d);
        assert forall|i: int| 0 <= i < s.len() implies summary_of(#[trigger] s[i]).len() <= longest_summary(s) by {
            if i < d.len() {
                assert(d[i] == s[i]);
            }
        }
        if summary_of(s.last()).len() <= longest_summary(d) && d.len() > 0 {
            let j = choose|j: int| 0 <= j < d.len() && summary_of(#[trigger] d[j]).len() == longest_summary(d);
            assert(d[j] == s[j]);
        }
        assert(summary_of(s[s.len() - 1]).len() == summary_of(s.last()).len());
    }
}

/// The name column is as wide as the heading or the longest name, whichever
/// is wider; the summary column as wide as the longest summary; the rule of
/// dashes spans both columns and the separator between them; every entry has
/// one row, in table order, between the rule and the closing empty line.
pub proof fn lemma_listing_shape(s: Seq<CommandModel>)
    ensures
        name_width(s) >= TITLE@.len(),
        forall|i: int| 0 <= i < s.len() ==> label_of(#[trigger] s[i]).len() <= name_width(s),
        name_width(s) == TITLE@.len() || exists|i: int|
            0 <= i < s.len() && label_of(#[trigger] s[i]).len() == name_width(s),
        forall|i: int| 0 <= i < s.len() ==> summary_of(#[trigger] s[i]).len() <= help_width(s),
        help_width(s) == 0 || exists|i: int|
            0 <= i < s.len() && summary_of(#[trigger] s[i]).len() == help_width(s),
        listing_of(s).len() == s.len() + 4,
        listing_of(s)[1].len() == name_width(s) + 3 + help_width(s),
        forall|i: int| 0 <= i < s.len() ==> listing_of(s)[2 + i] == row_of(#[trigger] s[i], name_width(s)),
        listing_of(s)[s.len() as int + 2] == Seq::<char>::empty(),
{
    lemma_longest_label(s);
    lemma_longest_summary(s);
}

/// With no entries the name column is as wide as its heading and no row
/// stands between the rule and the closing empty line.
pub proof fn lemma_empty_listing(s: Seq<CommandModel>)
    requires
        s.len() == 0,
    ensures
        name_width(s) == TITLE@.len(),
        help_width(s) == 0,
        listing_of(s).len() == 4,
        listing_of(s)[1] == run_of('-', TITLE@.len() + 3),
        listing_of(s)[2] == Seq::<char>::empty(),
{
}

/// The lines of the listing of `table`.
pub fn list_lines(table: &RouteTable) -> (r: Vec<String>)
    ensures
        r@.map_values(|l: String| l@) == listing_of(table@),
{
    let ghost s = table@;
    let n = table.len();
    let mut labels: Vec<String> = Vec::new();
    let mut summaries: Vec<String> = Vec::new();
    let mut long_label: usize = 0;
    let mut long_summary: usize = 0;
    let mut i: usize = 0;
    while i < n
        invariant
            s == table@,
            n == s.len(),
            i <= n,
            labels@.len() == i,
            summaries@.len() == i,
            forall|k: int| 0 <= k < i ==> (#[trigger] labels@[k])@ == label_of(s[k]),
            forall|k: int| 0 <= k < i ==> (#[trigger] summaries@[k])@ == summary_of(s[k]),
            long_label == longest_label(s.subrange(0, i as int)),
            long_summary == longest_summary(s.subrange(0, i as int)),
        decreases n - i,
    {
        let e: &CommandSpec = table.get(i);
        let label = match &e.name {
            Some(x) => x.clone(),
            None => String::new(),
        };
        let summary = first_line(trim(e.usage.as_str()));
        let ll = label.as_str().unicode_len();
        let sl = summary.as_str().unicode_len();
        proof {
            assert(s.subrange(0, i + 1).drop_last() =~= s.subrange(0, i as int));
            assert(s.subrange(0, i + 1).last() == s[i as int]);
        }
        if ll > long_label {
            long_label = ll;
        }
        if sl > long_summary {
            long_summary = sl;
        }
        labels.push(label);
        summaries.push(summary);
        i = i + 1;
    }
    proof {
        assert(s.subrange(0, n as int) =~= s);
        reveal_strlit("Command");
        reveal_strlit("-");
    }
    let title_len = TITLE.unicode_len();
    let nw: usize = if long_label > title_len {
        long_label
    } else {
        title_len
    };
    let hw = long_summary;

    let mut lines: Vec<String> = Vec::new();
    let mut head = pad_to_width(TITLE, nw);
    head.append(SEPARATOR);
    head.append(HELP);
    lines.push(head);

    let mut rule = run("-", nw);
    let rest = run("-", 3);
    rule.append(rest.as_str());
    let rest = run("-", hw);
    rule.append(rest.as_str());
    assert(rule@ =~= run_of('-', (nw + 3 + hw) as nat));
    lines.push(rule);

    let ghost head_line = padded(TITLE@, nw as nat) + SEPARATOR@ + HELP@;
    let ghost rule_line = run_of('-', (nw + 3 + hw) as nat);
    let mut k: usize = 0;
    while k < n
        invariant
            s == table@,
            n == s.len(),
            k <= n,
            labels@.len() == n,
            summaries@.len() == n,
            forall|j: int| 0 <= j < n ==> (#[trigger] labels@[j])@ == label_of(s[j]),
            forall|j: int| 0 <= j < n ==> (#[trigger] summaries@[j])@ == summary_of(s[j]),
            nw == name_width(s),
            lines@.len() == 2 + k,
            hw == help_width(s),
            lines@[0]@ == head_line,
            lines@[1]@ == rule_line,
            forall|j: int| 0 <= j < k ==> (#[trigger] lines@[2 + j])@ == row_of(s[j], nw as nat),
        decreases n - k,
    {
        let mut row = pad_to_width(labels[k].as_str(), nw);
        row.append(SEPARATOR);
        row.append(summaries[k].as_str());
        lines.push(row);
        k = k + 1;
    }
    lines.push(String::new());
    lines.push(HINT.to_string());
    proof {
        let want = listing_of(s);
        let got = lines@.map_values(|l: String| l@);
        assert(want.len() == n + 4);
        assert forall|j: int| 0 <= j < want.len() implies got[j] == want[j] by {
            if 2 <= j < 2 + n {
                assert(lines@[2 + (j - 2)] == lines@[j]);
            }
        }
        assert(got =~= want);
    }
    lines
}

} // verus!
