//! The help text: a header, then the usage, argument and option sections.

use vstd::prelude::*;
use crate::panel::{Segment, SegmentView, append_lines, bold_fg_rgb_spec, blank_line, emerald_500, fg_rgb, fg_rgb_spec, line_view, lines_view, neutral_500, neutral_700, push_line, sky_500, streak_line, streak_line_spec, text_segment, white};
use crate::text::{chars_of, push_char};

verus! {

/// The width of the label column of argument and option rows.
pub const LABEL_COLUMN_WIDTH: usize = 28;

/// Whether a line shows nothing: every segment is text without
/// characters (a style switch shows something).
pub open spec fn line_is_blank(line: Seq<SegmentView>) -> bool {
    forall|i: int|
        0 <= i < line.len() ==> match #[trigger] line[i] {
            SegmentView::Text(t) => t.len() == 0,
            SegmentView::Gradient(t, _, _) => t.len() == 0,
            SegmentView::Term(_) => false,
        }
}

pub open spec fn drop_leading_blank(rows: Seq<Seq<SegmentView>>) -> Seq<Seq<SegmentView>>
    decreases rows.len(),
{
    if rows.len() == 0 {
        rows
    } else if line_is_blank(rows[0]) {
        drop_leading_blank(rows.drop_first())
    } else {
        rows
    }
}

pub open spec fn drop_trailing_blank(rows: Seq<Seq<SegmentView>>) -> Seq<Seq<SegmentView>>
    decreases rows.len(),
{
    if rows.len() == 0 {
        rows
    } else if line_is_blank(rows.last()) {
        drop_trailing_blank(rows.drop_last())
    } else {
        rows
    }
}

/// The rows without blank ones at either end.
pub open spec fn trim_spec(rows: Seq<Seq<SegmentView>>) -> Seq<Seq<SegmentView>> {
    drop_trailing_blank(drop_leading_blank(rows))
}

fn blank(line: &Vec<Segment>) -> (r: bool)
    ensures
        r == line_is_blank(line_view(line@)),
{
    let ghost lv = line_view(line@);
    let mut i: usize = 0;
    while i < line.len()
        invariant
            i <= line@.len(),
            lv == line_view(line@),
            forall|k: int|
                0 <= k < i ==> match #[trigger] lv[k] {
                    SegmentView::Text(t) => t.len() == 0,
                    SegmentView::Gradient(t, _, _) => t.len() == 0,
                    SegmentView::Term(_) => false,
                },
        decreases line@.len() - i,
    {
        let shows = match &line[i] {
            Segment::Text(t) => chars_of(t.as_str()).len() > 0,
            Segment::Gradient(t, _, _) => chars_of(t.as_str()).len() > 0,
            Segment::Term(_) => true,
        };
        assert(lv[i as int] == line@[i as int]@);
        if shows {
            return false;
        }
        i = i + 1;
    }
    true
}

/// Drops blank rows at either end.
pub fn trim_empty_edges(rows: Vec<Vec<Segment>>) -> (r: Vec<Vec<Segment>>)
    ensures
        lines_view(r@) == trim_spec(lines_view(rows@)),
{
    let ghost all = lines_view(rows@);
    let mut start: usize = 0;
    assert(all.skip(0) =~= all);
    while start < rows.len() && blank(&rows[start])
        invariant
            start <= rows@.len(),
            all == lines_view(rows@),
            drop_leading_blank(all) == drop_leading_blank(all.skip(start as int)),
        decreases rows@.len() - start,
    {
        assert(all.skip(start as int).drop_first() =~= all.skip(start + 1));
        assert(all.skip(start as int)[0] == all[start as int]);
        start = start + 1;
    }
    let mut end: usize = rows.len();
    let ghost lead = all.skip(start as int);
    assert(drop_leading_blank(all) == lead) by {
        if start < rows@.len() {
            assert(lead[0] == all[start as int]);
        } else {
            assert(lead.len() == 0);
        }
    }
    assert(lead.take(lead.len() as int) =~= lead);
    while end > start && blank(&rows[end - 1])
        invariant
            start <= end <= rows@.len(),
            all == lines_view(rows@),
            lead == all.skip(start as int),
            drop_trailing_blank(lead) == drop_trailing_blank(lead.take(end - start)),
        decreases end - start,
    {
        assert(lead.take(end - start).drop_last() =~= lead.take(end - start - 1));
        assert(lead.take(end - start).last() == all[end - 1]);
        end = end - 1;
    }
    let ghost kept = lead.take(end - start);
    assert(drop_trailing_blank(lead) == kept) by {
        if end > start {
            assert(kept.last() == all[end - 1]);
        } else {
            assert(kept.len() == 0);
        }
    }
    let mut out: Vec<Vec<Segment>> = Vec::new();
    let mut rest = rows;
    let mut i: usize = 0;
    assert(all.skip(0) =~= all);
    while rest.len() > 0
        invariant
            all.len() <= usize::MAX,
            i + rest@.len() == all.len(),
            lines_view(rest@) == all.skip(i as int),
            start <= end <= all.len(),
            lines_view(out@) == if i <= start {
                Seq::<Seq<SegmentView>>::empty()
            } else if i <= end {
                all.subrange(start as int, i as int)
            } else {
                all.subrange(start as int, end as int)
            },
        decreases rest@.len(),
    {
        let ghost old_rest = rest@;
        let line = rest.remove(0);
        proof {
            assert(line == old_rest[0]);
            assert(lines_view(old_rest)[0] == line_view(line@));
            assert(line_view(line@) == all[i as int]) by {
                assert(all.skip(i as int)[0] == all[i as int]);
            }
            assert(rest@ =~= old_rest.drop_first());
            assert(lines_view(rest@) =~= lines_view(old_rest).drop_first());
            assert(all.skip(i as int).drop_first() =~= all.skip(i + 1));
        }
        if i >= start && i < end {
            let ghost before = lines_view(out@);
            push_line(&mut out, line);
            assert(all.subrange(start as int, i + 1) =~= all.subrange(start as int, i as int).push(all[i as int]));
        }
        i = i + 1;
        proof {
            if i <= start {
            } else if i <= end {
                if i - 1 == start {
                    assert(all.subrange(start as int, i as int) =~= seq![all[start as int]]);
                }
            }
        }
    }
    assert(kept =~= all.subrange(start as int, end as int));
    out
}


// ---------------------------------------------------------------------
// Rows
// ---------------------------------------------------------------------

/// `n` spaces.
pub open spec fn spaces(n: nat) -> Seq<char> {
    Seq::new(n, |i: int| ' ')
}

/// Aliases in gradients, separated by gray commas.
pub open spec fn aliases_spec(aliases: Seq<Seq<char>>) -> Seq<SegmentView>
    decreases aliases.len(),
{
    if aliases.len() == 0 {
        Seq::empty()
    } else if aliases.len() == 1 {
        seq![SegmentView::Gradient(aliases[0], emerald_500(), sky_500())]
    } else {
        aliases_spec(aliases.drop_last()) + seq![
            SegmentView::Text(fg_rgb_spec(", "@, neutral_500())),
            SegmentView::Gradient(aliases.last(), emerald_500(), sky_500()),
        ]
    }
}

/// How many characters the aliases and their separators show.
pub open spec fn aliases_width(aliases: Seq<Seq<char>>) -> nat
    decreases aliases.len(),
{
    if aliases.len() == 0 {
        0
    } else if aliases.len() == 1 {
        aliases[0].len()
    } else {
        aliases_width(aliases.drop_last()) + 2 + aliases.last().len()
    }
}

/// A row: indented label padded to the label column, then the
/// description.
pub open spec fn label_row_spec(label: Seq<SegmentView>, label_width: nat, description: Seq<char>) -> Seq<SegmentView> {
    let padding: nat = if label_width < LABEL_COLUMN_WIDTH {
        (LABEL_COLUMN_WIDTH - label_width) as nat
    } else {
        0
    };
    seq![SegmentView::Text("  "@)] + label + seq![SegmentView::Text(spaces(padding) + fg_rgb_spec(description, white()))]
}

fn space_text(n: usize) -> (r: String)
    ensures
        r@ == spaces(n as nat),
{
    let mut out = String::new();
    let mut i: usize = 0;
    while i < n
        invariant
            i <= n,
            out@ == spaces(i as nat),
        decreases n - i,
    {
        push_char(&mut out, ' ');
        i = i + 1;
        assert(out@ =~= spaces(i as nat));
    }
    out
}

fn push_segment(line: &mut Vec<Segment>, s: Segment)
    ensures
        line_view(final(line)@) == line_view(old(line)@).push(s@),
{
    line.push(s);
    assert(line_view(line@) =~= line_view(old(line)@).push(s@));
}

proof fn lemma_aliases_width_prefix(s: Seq<Seq<char>>, i: int)
    requires
        0 <= i <= s.len(),
    ensures
        aliases_width(s.take(i)) <= aliases_width(s),
    decreases s.len(),
{
    if i < s.len() {
        lemma_aliases_width_prefix(s.drop_last(), i);
        assert(s.drop_last().take(i) =~= s.take(i));
    } else {
        assert(s.take(i) =~= s);
    }
}

proof fn lemma_aliases_width_bound(s: Seq<Seq<char>>)
    requires
        forall|i: int| 0 <= i < s.len() ==> (#[trigger] s[i]).len() < 64,
    ensures
        aliases_width(s) <= 66 * s.len(),
    decreases s.len(),
{
    if s.len() > 1 {
        lemma_aliases_width_bound(s.drop_last());
    }
}

/// The aliases of an option, and how wide they show.
pub fn format_aliases(aliases: &Vec<&str>) -> (r: (Vec<Segment>, usize))
    requires
        aliases_width(aliases@.map_values(|a: &str| a@)) <= usize::MAX,
    ensures
        line_view(r.0@) == aliases_spec(aliases@.map_values(|a: &str| a@)),
        r.1 == aliases_width(aliases@.map_values(|a: &str| a@)),
{
    let ghost av = aliases@.map_values(|a: &str| a@);
    let mut out: Vec<Segment> = Vec::new();
    let mut width: usize = 0;
    let mut i: usize = 0;
    while i < aliases.len()
        invariant
            i <= aliases@.len(),
            av == aliases@.map_values(|a: &str| a@),
            aliases_width(av) <= usize::MAX,
            line_view(out@) == aliases_spec(av.take(i as int)),
            width == aliases_width(av.take(i as int)),
        decreases aliases@.len() - i,
    {
        let alias = aliases[i];
        let n = crate::text::chars_of(alias).len();
        assert(av.take(i + 1).drop_last() =~= av.take(i as int));
        assert(av.take(i + 1).last() == alias@);
        proof {
            lemma_aliases_width_prefix(av, i + 1);
            if i == 0 {
                assert(av.take(1) =~= seq![alias@]);
            }
        }
        if i > 0 {
            push_segment(&mut out, text_segment(fg_rgb(", ", (115, 115, 115))));
            width = width + 2;
        }
        push_segment(&mut out, Segment::Gradient(alias.to_owned(), (16, 185, 129), (14, 165, 233)));
        width = width + n;
        i = i + 1;
    }
    assert(av.take(av.len() as int) =~= av);
    (out, width)
}

/// A row of the argument or option section.
pub fn label_row(label: Vec<Segment>, label_width: usize, description: &str) -> (r: Vec<Segment>)
    ensures
        line_view(r@) == label_row_spec(line_view(label@), label_width as nat, description@),
{
    let padding = if label_width < LABEL_COLUMN_WIDTH {
        LABEL_COLUMN_WIDTH - label_width
    } else {
        0
    };
    let mut out: Vec<Segment> = Vec::new();
    let indent = "  ".to_owned();
    assert(indent@ == "  "@);
    push_segment(&mut out, text_segment(indent));
    assert(line_view(out@) =~= seq![SegmentView::Text("  "@)]);
    let mut label = label;
    let ghost lv = line_view(label@);
    out.append(&mut label);
    assert(line_view(out@) =~= seq![SegmentView::Text("  "@)] + lv);
    let mut tail = space_text(padding);
    let d = fg_rgb(description, (255, 255, 255));
    crate::text::push_text(&mut tail, d.as_str());
    push_segment(&mut out, text_segment(tail));
    assert(line_view(out@) =~= label_row_spec(lv, label_width as nat, description@));
    out
}

/// `  runtime-checker <dir> [options]`.
pub open spec fn usage_row_spec() -> Seq<SegmentView> {
    seq![
        SegmentView::Text("  "@),
        SegmentView::Gradient("runtime-checker"@, emerald_500(), sky_500()),
        SegmentView::Text(seq![' '] + fg_rgb_spec("<dir> [options]"@, white())),
    ]
}

pub fn usage_row() -> (r: Vec<Segment>)
    ensures
        line_view(r@) == usage_row_spec(),
{
    let mut tail = String::new();
    push_char(&mut tail, ' ');
    let rest = fg_rgb("<dir> [options]", (255, 255, 255));
    crate::text::push_text(&mut tail, rest.as_str());
    let r = vec![
        text_segment("  ".to_owned()),
        Segment::Gradient("runtime-checker".to_owned(), (16, 185, 129), (14, 165, 233)),
        text_segment(tail),
    ];
    assert(line_view(r@) =~= usage_row_spec());
    r
}

/// The row of the directory argument.
pub open spec fn argument_row_spec() -> Seq<SegmentView> {
    label_row_spec(seq![SegmentView::Gradient("<dir>"@, emerald_500(), sky_500())], 5, "directory to scan"@)
}

pub fn argument_row() -> (r: Vec<Segment>)
    ensures
        line_view(r@) == argument_row_spec(),
{
    let label = vec![Segment::Gradient("<dir>".to_owned(), (16, 185, 129), (14, 165, 233))];
    assert(line_view(label@) =~= seq![SegmentView::Gradient("<dir>"@, emerald_500(), sky_500())]);
    label_row(label, 5, "directory to scan")
}

/// The row of an option with its aliases.
pub open spec fn option_row_spec(flags: Seq<Seq<char>>, description: Seq<char>) -> Seq<SegmentView> {
    label_row_spec(aliases_spec(flags), aliases_width(flags), description)
}

pub fn option_row(flags: &Vec<&str>, description: &str) -> (r: Vec<Segment>)
    requires
        aliases_width(flags@.map_values(|a: &str| a@)) <= usize::MAX,
    ensures
        line_view(r@) == option_row_spec(flags@.map_values(|a: &str| a@), description@),
{
    let (label, width) = format_aliases(flags);
    label_row(label, width, description)
}

// ---------------------------------------------------------------------
// Sections
// ---------------------------------------------------------------------

/// A section: its title and a `»`, then its rows without blank ones at
/// the ends; nothing when it has no rows.
pub open spec fn section_spec(title: Seq<char>, rows: Seq<Seq<SegmentView>>) -> Seq<Seq<SegmentView>> {
    if rows.len() == 0 {
        Seq::empty()
    } else {
        seq![seq![SegmentView::Text(fg_rgb_spec(title, white()) + seq![' '] + fg_rgb_spec("»"@, neutral_700()))]]
            + trim_spec(rows)
    }
}

pub fn create_section(title: &str, rows: Vec<Vec<Segment>>) -> (r: Vec<Vec<Segment>>)
    ensures
        lines_view(r@) == section_spec(title@, lines_view(rows@)),
{
    if rows.len() == 0 {
        let r: Vec<Vec<Segment>> = Vec::new();
        assert(lines_view(r@) =~= Seq::<Seq<SegmentView>>::empty());
        return r;
    }
    let mut heading = fg_rgb(title, (255, 255, 255));
    push_char(&mut heading, ' ');
    let arrow = fg_rgb("»", (64, 64, 64));
    crate::text::push_text(&mut heading, arrow.as_str());
    assert(heading@ =~= fg_rgb_spec(title@, white()) + seq![' '] + fg_rgb_spec("»"@, neutral_700()));
    let mut out: Vec<Vec<Segment>> = Vec::new();
    let line = vec![text_segment(heading)];
    assert(line_view(line@) =~= seq![SegmentView::Text(fg_rgb_spec(title@, white()) + seq![' '] + fg_rgb_spec("»"@, neutral_700()))]);
    push_line(&mut out, line);
    let trimmed = trim_empty_edges(rows);
    append_lines(&mut out, trimmed);
    out
}

/// Non-empty sections, separated by blank lines.
pub open spec fn join_sections(sections: Seq<Seq<Seq<SegmentView>>>) -> Seq<Seq<SegmentView>>
    decreases sections.len(),
{
    if sections.len() == 0 {
        Seq::empty()
    } else {
        let prev = join_sections(sections.drop_last());
        let s = sections.last();
        if s.len() == 0 {
            prev
        } else if prev.len() == 0 {
            s
        } else {
            prev + seq![Seq::<SegmentView>::empty()] + s
        }
    }
}

fn join_onto(out: &mut Vec<Vec<Segment>>, section: Vec<Vec<Segment>>)
    ensures
        lines_view(final(out)@) == join_sections(seq![lines_view(old(out)@), lines_view(section@)]),
{
    let ghost before = lines_view(out@);
    let ghost s = lines_view(section@);
    proof {
        let two = seq![before, s];
        assert(two.drop_last() =~= seq![before]);
        assert(seq![before].drop_last() =~= Seq::<Seq<Seq<SegmentView>>>::empty());
        lemma_join_last(two);
        lemma_join_last(seq![before]);
        assert(join_sections(seq![before]) == before);
    }
    if section.len() == 0 {
        return;
    }
    if out.len() > 0 {
        blank_line(out);
    }
    append_lines(out, section);
}

/// The options the tool takes, with their descriptions.
pub open spec fn options_rows_spec() -> Seq<Seq<SegmentView>> {
    seq![
        option_row_spec(seq!["--fast"@], "use FFF text scanning; faster but less precise"@),
        option_row_spec(seq!["--runtime <runtime>"@], "target all, node, deno, bun, safari, chrome, or firefox"@),
        option_row_spec(seq!["--summary"@, "--oneline"@], "print only the summary panel"@),
        option_row_spec(seq!["--inspect <feature>"@], "print every detection for one feature"@),
        option_row_spec(seq!["--fix"@], "update package.json engines.node when useful"@),
        option_row_spec(seq!["-h"@, "--help"@], "display help for command"@),
    ]
}

/// The help text: the header, then the usage, argument and option
/// sections, separated by blank lines.
pub open spec fn help_spec(terminal_width: usize, version: Seq<char>) -> Seq<Seq<SegmentView>> {
    join_sections(
        seq![
            seq![streak_line_spec(version, terminal_width)],
            section_spec("Usage"@, seq![usage_row_spec()]),
            section_spec("Arguments"@, seq![argument_row_spec()]),
            section_spec("Options"@, options_rows_spec()),
        ],
    )
}

/// Adding one more section to joined sections.
pub open spec fn join_step(prev: Seq<Seq<SegmentView>>, s: Seq<Seq<SegmentView>>) -> Seq<Seq<SegmentView>> {
    if s.len() == 0 {
        prev
    } else if prev.len() == 0 {
        s
    } else {
        prev + seq![Seq::<SegmentView>::empty()] + s
    }
}

proof fn lemma_join_last(sections: Seq<Seq<Seq<SegmentView>>>)
    requires
        sections.len() > 0,
    ensures
        join_sections(sections) == join_step(join_sections(sections.drop_last()), sections.last()),
{
}

proof fn lemma_join_single(x: Seq<Seq<SegmentView>>)
    ensures
        join_sections(seq![x]) == x,
{
    assert(seq![x].drop_last() =~= Seq::<Seq<Seq<SegmentView>>>::empty());
    lemma_join_last(seq![x]);
}

fn one_option(rows: &mut Vec<Vec<Segment>>, flags: Vec<&str>, description: &str)
    requires
        flags@.len() < 16,
        forall|i: int| 0 <= i < flags@.len() ==> (#[trigger] flags@[i])@.len() < 64,
    ensures
        lines_view(final(rows)@) == lines_view(old(rows)@).push(
            option_row_spec(flags@.map_values(|a: &str| a@), description@),
        ),
{
    proof {
        let fv = flags@.map_values(|a: &str| a@);
        assert forall|i: int| 0 <= i < fv.len() implies (#[trigger] fv[i]).len() < 64 by {
            assert(fv[i] == flags@[i]@);
        }
        lemma_aliases_width_bound(fv);
    }
    push_line(rows, option_row(&flags, description));
}

/// The lines of the help text for a terminal `terminal_width` columns
/// wide and version `version` of the tool.
pub fn create_help_body(terminal_width: usize, version: &str) -> (r: Vec<Vec<Segment>>)
    requires
        version@.len() + 100 <= usize::MAX,
    ensures
        lines_view(r@) == help_spec(terminal_width, version@),
{
    let mut out: Vec<Vec<Segment>> = Vec::new();
    push_line(&mut out, streak_line(version, terminal_width));
    let ghost header = lines_view(out@);
    assert(header =~= seq![streak_line_spec(version@, terminal_width)]);
    let usage_rows = vec![usage_row()];
    assert(lines_view(usage_rows@) =~= seq![usage_row_spec()]);
    let usage = create_section("Usage", usage_rows);
    let ghost u = lines_view(usage@);
    join_onto(&mut out, usage);
    let ghost out1 = lines_view(out@);
    let argument_rows = vec![argument_row()];
    assert(lines_view(argument_rows@) =~= seq![argument_row_spec()]);
    let arguments = create_section("Arguments", argument_rows);
    let ghost a = lines_view(arguments@);
    join_onto(&mut out, arguments);
    let ghost out2 = lines_view(out@);
    let mut rows: Vec<Vec<Segment>> = Vec::new();
    proof {
        reveal_strlit("--fast");
        reveal_strlit("--runtime <runtime>");
        reveal_strlit("--summary");
        reveal_strlit("--oneline");
        reveal_strlit("--inspect <feature>");
        reveal_strlit("--fix");
        reveal_strlit("-h");
        reveal_strlit("--help");
    }
    let f1 = vec!["--fast"];
    assert(f1@.map_values(|a: &str| a@) =~= seq!["--fast"@]);
    one_option(&mut rows, f1, "use FFF text scanning; faster but less precise");
    let f2 = vec!["--runtime <runtime>"];
    assert(f2@.map_values(|a: &str| a@) =~= seq!["--runtime <runtime>"@]);
    one_option(&mut rows, f2, "target all, node, deno, bun, safari, chrome, or firefox");
    let f3 = vec!["--summary", "--oneline"];
    assert(f3@.map_values(|a: &str| a@) =~= seq!["--summary"@, "--oneline"@]);
    one_option(&mut rows, f3, "print only the summary panel");
    let f4 = vec!["--inspect <feature>"];
    assert(f4@.map_values(|a: &str| a@) =~= seq!["--inspect <feature>"@]);
    one_option(&mut rows, f4, "print every detection for one feature");
    let f5 = vec!["--fix"];
    assert(f5@.map_values(|a: &str| a@) =~= seq!["--fix"@]);
    one_option(&mut rows, f5, "update package.json engines.node when useful");
    let f6 = vec!["-h", "--help"];
    assert(f6@.map_values(|a: &str| a@) =~= seq!["-h"@, "--help"@]);
    one_option(&mut rows, f6, "display help for command");
    assert(lines_view(rows@) =~= options_rows_spec());
    let options = create_section("Options", rows);
    let ghost o = lines_view(options@);
    join_onto(&mut out, options);
    proof {
        let s4 = seq![header, u, a, o];
        let s3 = seq![header, u, a];
        let s2 = seq![header, u];
        let s1 = seq![header];
        assert(s4.drop_last() =~= s3);
        assert(s3.drop_last() =~= s2);
        assert(s2.drop_last() =~= s1);
        assert(s1.drop_last() =~= Seq::<Seq<Seq<SegmentView>>>::empty());
        lemma_join_last(s4);
        lemma_join_last(s3);
        lemma_join_last(s2);
        lemma_join_last(s1);
        assert(join_sections(s1) == header);
        lemma_join_single(out1);
        lemma_join_single(out2);
        lemma_join_last(seq![header, u]);
        lemma_join_last(seq![out1, a]);
        lemma_join_last(seq![out2, o]);
        assert(seq![header, u].drop_last() =~= seq![header]);
        assert(seq![out1, a].drop_last() =~= seq![out1]);
        assert(seq![out2, o].drop_last() =~= seq![out2]);
    }
    out
}

} // verus!
