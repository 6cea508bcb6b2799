//! What is written into a question document is read back.

use crate::clarification::{
    analysis_section, context_line, files_line, plan_line, preamble, question_text,
    questions_section, title_line, Reading, Section,
};
use crate::decimal::{decimal, digits, lemma_decimal};
use crate::joined::{
    has_no_cr, is_free_of, is_one_line, lemma_join_lines, lemma_lines_concat,
    lemma_lines_not_empty, lemma_single_line, lemma_split_join,
};
use crate::lines::{join, line_feed, lines};
use crate::task::ForgeIssueView;
use crate::text::strip_prefix;
use crate::triage::AnalysisResultView;
use vstd::prelude::*;

verus! {

/// Whether `s` holds neither a line feed nor a carriage return.
pub open spec fn is_plain(s: Seq<char>) -> bool {
    forall|i: int| 0 <= i < s.len() ==> #[trigger] s[i] != '\n' && s[i] != '\r'
}

/// Whether a line opens one of the two sections that the reader reads.
pub open spec fn opens_section(line: Seq<char>) -> bool {
    "## Previous Analysis"@.is_prefix_of(line) || "## Questions"@.is_prefix_of(line)
}

/// Whether a line is a heading.
pub open spec fn is_heading(line: Seq<char>) -> bool {
    "## "@.is_prefix_of(line)
}

/// What has been read after `lines`, where `before` was read before them.
pub open spec fn read_on(before: Reading, lines: Seq<Seq<char>>) -> Reading
    decreases lines.len(),
{
    if lines.len() == 0 {
        before
    } else {
        read_on(before, lines.drop_last()).line(lines.last())
    }
}

/// The lines gathered as questions: each after a line feed, unless nothing
/// was gathered before it.
pub open spec fn gathered(before: Seq<char>, lines: Seq<Seq<char>>) -> Seq<char>
    decreases lines.len(),
{
    if lines.len() == 0 {
        before
    } else {
        let earlier = gathered(before, lines.drop_last());
        if earlier.len() > 0 {
            earlier + "\n"@ + lines.last()
        } else {
            lines.last()
        }
    }
}

/// Reading all lines is reading on from nothing.
pub proof fn lemma_all_is_read_on(lines: Seq<Seq<char>>)
    ensures
        Reading::all(lines) == read_on(Reading::start(), lines),
    decreases lines.len(),
{
    if lines.len() > 0 {
        lemma_all_is_read_on(lines.drop_last());
    }
}

/// Reading two lists of lines one after the other is reading them as one.
pub proof fn lemma_read_on_concat(before: Reading, a: Seq<Seq<char>>, b: Seq<Seq<char>>)
    ensures
        read_on(before, a + b) == read_on(read_on(before, a), b),
    decreases b.len(),
{
    if b.len() == 0 {
        assert(a + b =~= a);
    } else {
        lemma_read_on_concat(before, a, b.drop_last());
        assert((a + b).drop_last() =~= a + b.drop_last());
        assert((a + b).last() == b.last());
    }
}

/// Reading one line more.
pub proof fn lemma_read_on_push(before: Reading, lines: Seq<Seq<char>>, line: Seq<char>)
    ensures
        read_on(before, lines.push(line)) == read_on(before, lines).line(line),
{
    assert(lines.push(line).drop_last() =~= lines);
}

/// Outside the sections that the reader reads, lines that open none of them
/// are read past.
pub proof fn lemma_reads_past(before: Reading, lines: Seq<Seq<char>>)
    requires
        before.section is Other,
        forall|i: int| 0 <= i < lines.len() ==> !opens_section(#[trigger] lines[i]),
    ensures
        read_on(before, lines) == before,
    decreases lines.len(),
{
    if lines.len() > 0 {
        assert forall|i: int| 0 <= i < lines.drop_last().len() implies !opens_section(
            #[trigger] lines.drop_last()[i],
        ) by {
            assert(lines.drop_last()[i] == lines[i]);
        }
        lemma_reads_past(before, lines.drop_last());
        assert(!opens_section(lines[lines.len() - 1]));
    }
}

/// Under the heading of the questions, lines that are no headings are
/// gathered as questions, and nothing else changes.
pub proof fn lemma_gathers(before: Reading, lines: Seq<Seq<char>>)
    requires
        before.section is Questions,
        forall|i: int| 0 <= i < lines.len() ==> !is_heading(#[trigger] lines[i]),
    ensures
        read_on(before, lines) == (Reading {
            questions: gathered(before.questions, lines),
            ..before
        }),
    decreases lines.len(),
{
    reveal_strlit("## ");
    reveal_strlit("## Previous Analysis");
    reveal_strlit("## Questions");
    if lines.len() > 0 {
        assert forall|i: int| 0 <= i < lines.drop_last().len() implies !is_heading(
            #[trigger] lines.drop_last()[i],
        ) by {
            assert(lines.drop_last()[i] == lines[i]);
        }
        lemma_gathers(before, lines.drop_last());
        let line = lines[lines.len() - 1];
        assert(!is_heading(line));
        if "## Previous Analysis"@.is_prefix_of(line) {
            assert("## "@ =~= line.subrange(0, 3)) by {
                assert(line.subrange(0, 20).subrange(0, 3) =~= line.subrange(0, 3));
                assert("## Previous Analysis"@.subrange(0, 3) =~= "## "@);
            }
        }
        if "## Questions"@.is_prefix_of(line) {
            assert("## "@ =~= line.subrange(0, 3)) by {
                assert(line.subrange(0, 12).subrange(0, 3) =~= line.subrange(0, 3));
                assert("## Questions"@.subrange(0, 3) =~= "## "@);
            }
        }
    }
}

/// The texts of a list with line feeds between them hold at least the
/// first of them.
proof fn lemma_join_holds_first(parts: Seq<Seq<char>>, sep: Seq<char>)
    requires
        parts.len() > 0,
    ensures
        join(parts, sep).len() >= parts[0].len(),
    decreases parts.len(),
{
    if parts.len() > 1 {
        lemma_join_holds_first(parts.drop_last(), sep);
        assert(parts.drop_last()[0] == parts[0]);
    }
}

/// Lines of which the first is not empty, or of which there is only one,
/// are gathered with a line feed between each two.
pub proof fn lemma_gathered_is_join(lines: Seq<Seq<char>>)
    requires
        lines.len() > 0,
        lines[0].len() > 0 || lines.len() == 1,
    ensures
        gathered(Seq::empty(), lines) == join(lines, line_feed()),
    decreases lines.len(),
{
    reveal_strlit("\n");
    assert("\n"@ =~= line_feed());
    if lines.len() == 1 {
        assert(lines.drop_last() =~= Seq::<Seq<char>>::empty());
        assert(gathered(Seq::empty(), lines.drop_last()) =~= Seq::<char>::empty());
    } else {
        let init = lines.drop_last();
        assert(init[0] == lines[0]);
        lemma_gathered_is_join(init);
        lemma_join_holds_first(init, line_feed());
    }
}

/// The words of a question document hold neither a line feed nor a
/// carriage return.
proof fn lemma_plain_words()
    ensures
        is_plain("# Clarification needed: Issue #"@),
        is_plain("## Issue"@),
        is_plain("## Previous Analysis"@),
        is_plain("Relevant files: "@),
        is_plain("Plan: "@),
        is_plain("Context: "@),
        is_plain("## Questions"@),
        is_plain(", "@),
{
    reveal_strlit("# Clarification needed: Issue #");
    assert forall|i: int| 0 <= i < "# Clarification needed: Issue #"@.len() implies #[trigger] "# Clarification needed: Issue #"@[i] != '\n'
        && "# Clarification needed: Issue #"@[i] != '\r' by {
        assert(i == 0 || i == 1 || i == 2 || i == 3 || i == 4 || i == 5 || i == 6 || i == 7 || i == 8 || i == 9 || i == 10 || i == 11 || i == 12 || i == 13 || i == 14 || i == 15 || i == 16 || i == 17 || i == 18 || i == 19 || i == 20 || i == 21 || i == 22 || i == 23 || i == 24 || i == 25 || i == 26 || i == 27 || i == 28 || i == 29 || i == 30);
    }
    reveal_strlit("## Issue");
    assert forall|i: int| 0 <= i < "## Issue"@.len() implies #[trigger] "## Issue"@[i] != '\n'
        && "## Issue"@[i] != '\r' by {
        assert(i == 0 || i == 1 || i == 2 || i == 3 || i == 4 || i == 5 || i == 6 || i == 7);
    }
    reveal_strlit("## Previous Analysis");
    assert forall|i: int| 0 <= i < "## Previous Analysis"@.len() implies #[trigger] "## Previous Analysis"@[i] != '\n'
        && "## Previous Analysis"@[i] != '\r' by {
        assert(i == 0 || i == 1 || i == 2 || i == 3 || i == 4 || i == 5 || i == 6 || i == 7 || i == 8 || i == 9 || i == 10 || i == 11 || i == 12 || i == 13 || i == 14 || i == 15 || i == 16 || i == 17 || i == 18 || i == 19);
    }
    reveal_strlit("Relevant files: ");
    assert forall|i: int| 0 <= i < "Relevant files: "@.len() implies #[trigger] "Relevant files: "@[i] != '\n'
        && "Relevant files: "@[i] != '\r' by {
        assert(i == 0 || i == 1 || i == 2 || i == 3 || i == 4 || i == 5 || i == 6 || i == 7 || i == 8 || i == 9 || i == 10 || i == 11 || i == 12 || i == 13 || i == 14 || i == 15);
    }
    reveal_strlit("Plan: ");
    assert forall|i: int| 0 <= i < "Plan: "@.len() implies #[trigger] "Plan: "@[i] != '\n'
        && "Plan: "@[i] != '\r' by {
        assert(i == 0 || i == 1 || i == 2 || i == 3 || i == 4 || i == 5);
    }
    reveal_strlit("Context: ");
    assert forall|i: int| 0 <= i < "Context: "@.len() implies #[trigger] "Context: "@[i] != '\n'
        && "Context: "@[i] != '\r' by {
        assert(i == 0 || i == 1 || i == 2 || i == 3 || i == 4 || i == 5 || i == 6 || i == 7 || i == 8);
    }
    reveal_strlit("## Questions");
    assert forall|i: int| 0 <= i < "## Questions"@.len() implies #[trigger] "## Questions"@[i] != '\n'
        && "## Questions"@[i] != '\r' by {
        assert(i == 0 || i == 1 || i == 2 || i == 3 || i == 4 || i == 5 || i == 6 || i == 7 || i == 8 || i == 9 || i == 10 || i == 11);
    }
    reveal_strlit(", ");
    assert forall|i: int| 0 <= i < ", "@.len() implies #[trigger] ", "@[i] != '\n'
        && ", "@[i] != '\r' by {
        assert(i == 0 || i == 1);
    }
}

/// A number written in decimal holds neither a line feed nor a carriage
/// return.
proof fn lemma_plain_decimal(n: nat)
    ensures
        is_plain(decimal(n)),
{
    lemma_decimal(n);
    let ds = digits();
    assert(ds[0] == '0' && ds[1] == '1' && ds[2] == '2' && ds[3] == '3' && ds[4] == '4' && ds[5]
        == '5' && ds[6] == '6' && ds[7] == '7' && ds[8] == '8' && ds[9] == '9');
    assert forall|i: int| 0 <= i < decimal(n).len() implies #[trigger] decimal(n)[i] != '\n'
        && decimal(n)[i] != '\r' by {
        let c = decimal(n)[i];
        assert(crate::decimal::digit_value(c) is Some);
        let k = ds.index_of(c);
        assert(0 <= k < 10 && ds[k] == c);
    }
}

/// Two plain texts, one after the other, are a plain text.
proof fn lemma_plain_concat(a: Seq<char>, b: Seq<char>)
    requires
        is_plain(a),
        is_plain(b),
    ensures
        is_plain(a + b),
{
    assert forall|i: int| 0 <= i < (a + b).len() implies #[trigger] (a + b)[i] != '\n' && (a
        + b)[i] != '\r' by {
        if i < a.len() {
            assert((a + b)[i] == a[i]);
        } else {
            assert((a + b)[i] == b[i - a.len()]);
        }
    }
}

/// Plain texts with a plain text between them are a plain text.
proof fn lemma_plain_join(parts: Seq<Seq<char>>, sep: Seq<char>)
    requires
        is_plain(sep),
        forall|i: int| 0 <= i < parts.len() ==> is_plain(#[trigger] parts[i]),
    ensures
        is_plain(join(parts, sep)),
    decreases parts.len(),
{
    if parts.len() == 1 {
    } else if parts.len() > 1 {
        assert forall|i: int| 0 <= i < parts.drop_last().len() implies is_plain(
            #[trigger] parts.drop_last()[i],
        ) by {
            assert(parts.drop_last()[i] == parts[i]);
        }
        lemma_plain_join(parts.drop_last(), sep);
        lemma_plain_concat(join(parts.drop_last(), sep), sep);
        lemma_plain_concat(join(parts.drop_last(), sep) + sep, parts.last());
    }
}

/// After a text that is empty or ends in a line feed, a plain text ended by
/// a line feed adds one line: itself.
proof fn lemma_lines_with_line(u: Seq<char>, x: Seq<char>)
    requires
        u.len() == 0 || u.last() == '\n',
        is_plain(x),
    ensures
        lines(u + x + line_feed()) == lines(u).push(x),
{
    if x.len() > 0 {
        assert(x[x.len() - 1] != '\r');
    }
    lemma_single_line(x);
    assert(u + x + line_feed() =~= u + (x + line_feed()));
    if u.len() == 0 {
        assert(u + (x + line_feed()) =~= x + line_feed());
        assert(lines(u) =~= Seq::<Seq<char>>::empty());
        assert(Seq::<Seq<char>>::empty().push(x) =~= seq![x]);
    } else {
        lemma_lines_concat(u, x + line_feed());
        assert(lines(u) + seq![x] =~= lines(u).push(x));
    }
}

/// After a text that is empty or ends in a line feed, any text ended by a
/// line feed adds its own lines.
proof fn lemma_lines_with_block(u: Seq<char>, b: Seq<char>)
    requires
        u.len() == 0 || u.last() == '\n',
    ensures
        lines(u + b + line_feed()) == lines(u) + lines(b + line_feed()),
{
    assert(u + b + line_feed() =~= u + (b + line_feed()));
    if u.len() == 0 {
        assert(u + (b + line_feed()) =~= b + line_feed());
        assert(lines(u) =~= Seq::<Seq<char>>::empty());
        assert(Seq::<Seq<char>>::empty() + lines(b + line_feed()) =~= lines(b + line_feed()));
    } else {
        lemma_lines_concat(u, b + line_feed());
    }
}

/// The lines of what stands before the analysis: the first line, an empty
/// line, the heading of the task, the lines of its title and of its body,
/// and an empty line.
proof fn lemma_preamble_lines(issue: ForgeIssueView)
    ensures
        preamble(issue).len() > 0,
        preamble(issue).last() == '\n',
        lines(preamble(issue)) == seq![title_line(issue.number), Seq::empty(), "## Issue"@]
            + lines(issue.title + line_feed()) + lines(issue.body + line_feed()) + seq![
            Seq::<char>::empty(),
        ],
{
    let nl = line_feed();
    let none = Seq::<char>::empty();
    let first = title_line(issue.number);
    lemma_plain_words();
    lemma_plain_decimal(issue.number as nat);
    lemma_plain_concat("# Clarification needed: Issue #"@, decimal(issue.number as nat));
    let u1 = first + nl;
    lemma_lines_with_line(none, first);
    assert(none + first + nl =~= u1);
    assert(lines(none) =~= Seq::<Seq<char>>::empty());
    assert(lines(u1) =~= seq![first]);
    let u2 = u1 + nl;
    lemma_lines_with_line(u1, none);
    assert(u1 + none + nl =~= u2);
    let u3 = u2 + "## Issue"@ + nl;
    lemma_lines_with_line(u2, "## Issue"@);
    let u4 = u3 + issue.title + nl;
    lemma_lines_with_block(u3, issue.title);
    let u5 = u4 + issue.body + nl;
    lemma_lines_with_block(u4, issue.body);
    let u6 = u5 + nl;
    lemma_lines_with_line(u5, none);
    assert(u5 + none + nl =~= u6);
    assert(preamble(issue) =~= u6);
    assert(lines(u3) =~= seq![first, none, "## Issue"@]);
    assert(lines(u6) =~= seq![first, none, "## Issue"@] + lines(issue.title + nl) + lines(
        issue.body + nl,
    ) + seq![none]);
}

/// The lines of what a question document says of the analysis.
proof fn lemma_analysis_lines(analysis: AnalysisResultView)
    requires
        forall|i: int|
            0 <= i < analysis.relevant_files.len() ==> is_plain(
                #[trigger] analysis.relevant_files[i],
            ),
        is_plain(analysis.plan),
        is_plain(analysis.context),
    ensures
        analysis_section(analysis).len() > 0,
        analysis_section(analysis).last() == '\n',
        lines(analysis_section(analysis)) == seq![
            "## Previous Analysis"@,
            files_line(analysis.relevant_files),
            plan_line(analysis.plan),
            context_line(analysis.context),
            Seq::<char>::empty(),
        ],
{
    let nl = line_feed();
    let none = Seq::<char>::empty();
    lemma_plain_words();
    lemma_plain_join(analysis.relevant_files, ", "@);
    lemma_plain_concat("Relevant files: "@, join(analysis.relevant_files, ", "@));
    lemma_plain_concat("Plan: "@, analysis.plan);
    lemma_plain_concat("Context: "@, analysis.context);
    let heading = "## Previous Analysis"@;
    let files = files_line(analysis.relevant_files);
    let plan = plan_line(analysis.plan);
    let context = context_line(analysis.context);
    let u1 = heading + nl;
    lemma_lines_with_line(none, heading);
    assert(none + heading + nl =~= u1);
    assert(lines(none) =~= Seq::<Seq<char>>::empty());
    assert(lines(u1) =~= seq![heading]);
    let u2 = u1 + files + nl;
    lemma_lines_with_line(u1, files);
    let u3 = u2 + plan + nl;
    lemma_lines_with_line(u2, plan);
    let u4 = u3 + context + nl;
    lemma_lines_with_line(u3, context);
    let u5 = u4 + nl;
    lemma_lines_with_line(u4, none);
    assert(u4 + none + nl =~= u5);
    assert(analysis_section(analysis) =~= u5);
    assert(lines(u5) =~= seq![heading, files, plan, context, none]);
}

/// The lines of the questions of a question document, under their heading.
proof fn lemma_questions_lines(questions: Seq<char>)
    ensures
        lines(questions_section(questions)) == seq!["## Questions"@] + lines(
            questions + line_feed(),
        ),
{
    let nl = line_feed();
    let none = Seq::<char>::empty();
    lemma_plain_words();
    let heading = "## Questions"@;
    let u1 = heading + nl;
    lemma_lines_with_line(none, heading);
    assert(none + heading + nl =~= u1);
    assert(lines(none) =~= Seq::<Seq<char>>::empty());
    assert(lines(u1) =~= seq![heading]);
    lemma_lines_with_block(u1, questions);
    assert(questions_section(questions) =~= u1 + questions + nl);
}

/// A text is no beginning of another text that differs from it at some
/// place, or is shorter than it.
proof fn lemma_not_prefix(prefix: Seq<char>, line: Seq<char>, at: int)
    requires
        0 <= at < prefix.len(),
        at < line.len() ==> prefix[at] != line[at],
    ensures
        !prefix.is_prefix_of(line),
{
    if prefix.is_prefix_of(line) {
        assert(line.subrange(0, prefix.len() as int)[at] == line[at]);
    }
}

/// What the reader makes of the lines that a question document has of the
/// analysis: the files, the plan and the context, as they were written.
proof fn lemma_reads_analysis(before: Reading, analysis: AnalysisResultView)
    requires
        analysis.relevant_files.len() > 0,
        forall|i: int|
            0 <= i < analysis.relevant_files.len() ==> is_free_of(
                #[trigger] analysis.relevant_files[i],
                ", "@,
            ),
    ensures
        read_on(
            before,
            seq![
                "## Previous Analysis"@,
                files_line(analysis.relevant_files),
                plan_line(analysis.plan),
                context_line(analysis.context),
                Seq::<char>::empty(),
            ],
        ) == (Reading {
            section: Section::Analysis,
            files: analysis.relevant_files,
            plan: analysis.plan,
            context: analysis.context,
            ..before
        }),
{
    reveal_strlit("## Previous Analysis");
    reveal_strlit("## Questions");
    reveal_strlit("## ");
    reveal_strlit("Relevant files: ");
    reveal_strlit("Plan: ");
    reveal_strlit("Context: ");
    reveal_strlit(", ");
    let none = Seq::<char>::empty();
    let heading = "## Previous Analysis"@;
    let files = files_line(analysis.relevant_files);
    let plan = plan_line(analysis.plan);
    let context = context_line(analysis.context);
    let l0 = Seq::<Seq<char>>::empty();
    let l1 = l0.push(heading);
    let l2 = l1.push(files);
    let l3 = l2.push(plan);
    let l4 = l3.push(context);
    let l5 = l4.push(none);
    assert(l5 =~= seq![heading, files, plan, context, none]);
    lemma_read_on_push(before, l0, heading);
    lemma_read_on_push(before, l1, files);
    lemma_read_on_push(before, l2, plan);
    lemma_read_on_push(before, l3, context);
    lemma_read_on_push(before, l4, none);
    // The heading opens the section.
    assert(heading.is_prefix_of(heading)) by {
        assert(heading.subrange(0, heading.len() as int) =~= heading);
    }
    let s1 = Reading { section: Section::Analysis, ..before };
    assert(read_on(before, l1) == s1);
    // The line of the files.
    lemma_not_prefix("## Previous Analysis"@, files, 0);
    lemma_not_prefix("## Questions"@, files, 0);
    lemma_not_prefix("## "@, files, 0);
    assert("Relevant files: "@.is_prefix_of(files)) by {
        assert(files.subrange(0, 16) =~= "Relevant files: "@);
    }
    assert(files.skip(16) =~= join(analysis.relevant_files, ", "@));
    assert(", "@ =~= seq![',', ' ']);
    lemma_split_join(analysis.relevant_files, ',', ' ');
    let s2 = Reading { files: analysis.relevant_files, ..s1 };
    assert(read_on(before, l2) == s2);
    // The line of the plan.
    lemma_not_prefix("## Previous Analysis"@, plan, 0);
    lemma_not_prefix("## Questions"@, plan, 0);
    lemma_not_prefix("## "@, plan, 0);
    lemma_not_prefix("Relevant files: "@, plan, 0);
    assert("Plan: "@.is_prefix_of(plan)) by {
        assert(plan.subrange(0, 6) =~= "Plan: "@);
    }
    assert(plan.skip(6) =~= analysis.plan);
    let s3 = Reading { plan: analysis.plan, ..s2 };
    assert(read_on(before, l3) == s3);
    // The line of the context.
    lemma_not_prefix("## Previous Analysis"@, context, 0);
    lemma_not_prefix("## Questions"@, context, 0);
    lemma_not_prefix("## "@, context, 0);
    lemma_not_prefix("Relevant files: "@, context, 0);
    lemma_not_prefix("Plan: "@, context, 0);
    assert("Context: "@.is_prefix_of(context)) by {
        assert(context.subrange(0, 9) =~= "Context: "@);
    }
    assert(context.skip(9) =~= analysis.context);
    let s4 = Reading { context: analysis.context, ..s3 };
    assert(read_on(before, l4) == s4);
    // The empty line.
    lemma_not_prefix("## Previous Analysis"@, none, 0);
    lemma_not_prefix("## Questions"@, none, 0);
    lemma_not_prefix("## "@, none, 0);
    lemma_not_prefix("Relevant files: "@, none, 0);
    lemma_not_prefix("Plan: "@, none, 0);
    lemma_not_prefix("Context: "@, none, 0);
    assert(read_on(before, l5) == s4);
}

/// What is written into a question document is read back: the files, the
/// plan, the context and the questions come out as they went in.
///
/// This holds of a document in which nothing of the task looks like one of
/// the two headings that the reader reads, the analysis names at least one
/// file, the files, the plan and the context each fit on a line, no file
/// holds the comma and blank that part the files, and the questions hold no
/// carriage return, no heading, and begin with a line that is not empty
/// unless they are one line altogether.
pub proof fn lemma_question_read_back(
    issue: ForgeIssueView,
    analysis: AnalysisResultView,
    questions: Seq<char>,
)
    requires
        forall|i: int|
            0 <= i < lines(issue.title + line_feed()).len() ==> !opens_section(
                #[trigger] lines(issue.title + line_feed())[i],
            ),
        forall|i: int|
            0 <= i < lines(issue.body + line_feed()).len() ==> !opens_section(
                #[trigger] lines(issue.body + line_feed())[i],
            ),
        analysis.relevant_files.len() > 0,
        forall|i: int|
            0 <= i < analysis.relevant_files.len() ==> is_plain(
                #[trigger] analysis.relevant_files[i],
            ) && is_free_of(analysis.relevant_files[i], ", "@),
        is_plain(analysis.plan),
        is_plain(analysis.context),
        has_no_cr(questions),
        forall|i: int|
            0 <= i < lines(questions + line_feed()).len() ==> !is_heading(
                #[trigger] lines(questions + line_feed())[i],
            ),
        lines(questions + line_feed())[0].len() > 0 || lines(questions + line_feed()).len() == 1,
    ensures
        Reading::all(lines(question_text(issue, analysis, questions))).files
            == analysis.relevant_files,
        Reading::all(lines(question_text(issue, analysis, questions))).plan == analysis.plan,
        Reading::all(lines(question_text(issue, analysis, questions))).context
            == analysis.context,
        Reading::all(lines(question_text(issue, analysis, questions))).questions == questions,
{
    reveal_strlit("## Previous Analysis");
    reveal_strlit("## Questions");
    reveal_strlit("## ");
    reveal_strlit("## Issue");
    reveal_strlit("# Clarification needed: Issue #");
    let nl = line_feed();
    let none = Seq::<char>::empty();
    let first = title_line(issue.number);
    let before = preamble(issue);
    let found = analysis_section(analysis);
    let asked = questions_section(questions);
    let whole = question_text(issue, analysis, questions);
    // The lines of the document.
    lemma_preamble_lines(issue);
    lemma_analysis_lines(analysis);
    lemma_questions_lines(questions);
    lemma_lines_concat(before, found);
    assert((before + found).last() == '\n');
    lemma_lines_concat(before + found, asked);
    let head = lines(before);
    let middle = lines(found);
    let tail = lines(asked);
    assert(lines(whole) == head + middle + tail);
    // Reading them, part by part.
    lemma_all_is_read_on(lines(whole));
    lemma_read_on_concat(Reading::start(), head + middle, tail);
    lemma_read_on_concat(Reading::start(), head, middle);
    // Nothing before the analysis opens a section.
    let of_title = lines(issue.title + nl);
    let of_body = lines(issue.body + nl);
    assert(first[1] == ' ');
    lemma_not_prefix("## Previous Analysis"@, first, 1);
    lemma_not_prefix("## Questions"@, first, 1);
    lemma_not_prefix("## Previous Analysis"@, none, 0);
    lemma_not_prefix("## Questions"@, none, 0);
    lemma_not_prefix("## Previous Analysis"@, "## Issue"@, 8);
    lemma_not_prefix("## Questions"@, "## Issue"@, 8);
    assert forall|i: int| 0 <= i < head.len() implies !opens_section(#[trigger] head[i]) by {
        if i < 3 {
            assert(head[i] == seq![first, none, "## Issue"@][i]);
        } else if i < 3 + of_title.len() {
            assert(head[i] == of_title[i - 3]);
        } else if i < 3 + of_title.len() + of_body.len() {
            assert(head[i] == of_body[i - 3 - of_title.len()]);
        } else {
            assert(head[i] == none);
        }
    }
    lemma_reads_past(Reading::start(), head);
    // The analysis.
    lemma_reads_analysis(Reading::start(), analysis);
    let after = read_on(Reading::start(), head + middle);
    assert(after == (Reading {
        section: Section::Analysis,
        files: analysis.relevant_files,
        plan: analysis.plan,
        context: analysis.context,
        ..Reading::start()
    }));
    // The questions.
    let of_questions = lines(questions + nl);
    let heading = seq!["## Questions"@];
    assert(tail == heading + of_questions);
    lemma_read_on_concat(after, heading, of_questions);
    lemma_read_on_push(after, Seq::<Seq<char>>::empty(), "## Questions"@);
    assert(Seq::<Seq<char>>::empty().push("## Questions"@) =~= heading);
    lemma_not_prefix("## Previous Analysis"@, "## Questions"@, 12);
    assert("## Questions"@.is_prefix_of("## Questions"@)) by {
        assert("## Questions"@.subrange(0, 12) =~= "## Questions"@);
    }
    let opened = Reading { section: Section::Questions, ..after };
    assert(read_on(after, heading) == opened);
    lemma_gathers(opened, of_questions);
    lemma_lines_not_empty(questions);
    lemma_gathered_is_join(of_questions);
    lemma_join_lines(questions);
}

} // verus!
