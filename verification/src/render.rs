//! Serializing the buckets into a LaTeX source document.
//!
//! The document is fixed boilerplate around one section per rendered
//! bucket: a centred heading, then a two-column itemized list with one
//! entry per item, in bucket order.  `Single` mode renders the "All"
//! bucket under a heading carrying the date stamp; `SplitTwo` renders
//! the "All" bucket and the two per-person buckets, with a page break
//! between consecutive sections.

use vstd::prelude::*;
use vstd::string::StringExecFns;

use crate::dates::today_stamp;
use crate::partition::{even_positions, odd_positions, Ingredients, Mode};

verus! {

/// Document preamble: class, page geometry, font, two-column list package.
pub const DOCUMENT_BEGIN: &'static str = "\n\\documentclass[12pt]{article}\n\n\\usepackage{fullpage}\n\\usepackage{fontspec}\n\\usepackage{multicol}\n\n\\pagestyle{empty}\n\n\\setmainfont{Andika}\n\n\\begin{document}\n";

/// Opens the centred section heading.
pub const HEADING_START: &'static str = "\n\\begin{center}\n{\\huge Grocery List}\n\\medskip\n\n";

/// Closes the centred section heading.
pub const HEADING_ENDS: &'static str = "\n\\end{center}\n";

/// Opens the two-column itemized list.
pub const BEGIN_BALANCED_LIST: &'static str = "\n\\bigskip\n\\begin{multicols}{2}\n\\begin{itemize}\n{\n";

/// Closes the two-column itemized list.
pub const END_BALANCED_LIST: &'static str = "\n}\n\\end{itemize}\n\\end{multicols}\n";

/// Document closing boilerplate.
pub const DOCUMENT_END: &'static str = "\n\\end{document}\n";

/// One list entry, before the item's own text.
pub const ITEM_PREFIX: &'static str = "\\item[] ";

/// Line terminator written after each entry and after each heading title.
pub const NEWLINE: &'static str = "\n";

/// Separates consecutive sections of a multi-section document.
pub const PAGE_BREAK: &'static str = "\n\\pagebreak\n";

/// Heading title of the undivided bucket in a split document.
pub const TITLE_ALL: &'static str = "All";

/// Heading title of the first per-person bucket.
pub const TITLE_PERSON_A: &'static str = "Person A";

/// Heading title of the second per-person bucket.
pub const TITLE_PERSON_B: &'static str = "Person B";

/// The list entries of one bucket: `\item[] ` before each item, one item
/// per line, in bucket order.  An empty item still yields an entry.
pub open spec fn spec_item_lines(items: Seq<String>) -> Seq<char>
    decreases items.len(),
{
    if items.len() == 0 {
        Seq::empty()
    } else {
        ITEM_PREFIX@ + items[0]@ + NEWLINE@ + spec_item_lines(items.drop_first())
    }
}

/// One section: a centred heading carrying `title`, then the two-column
/// list of `items`.
pub open spec fn spec_section(title: Seq<char>, items: Seq<String>) -> Seq<char> {
    HEADING_START@ + title + NEWLINE@ + HEADING_ENDS@ + BEGIN_BALANCED_LIST@ + spec_item_lines(
        items,
    ) + END_BALANCED_LIST@
}

/// The whole document over the three buckets.  `Single` mode renders the
/// "All" bucket alone, titled with the date stamp; `SplitTwo` renders
/// "All", then the two per-person buckets, a page break between
/// consecutive sections and none after the last.
pub open spec fn spec_document(
    all: Seq<String>,
    person_a: Seq<String>,
    person_b: Seq<String>,
    mode: Mode,
    date: Seq<char>,
) -> Seq<char> {
    match mode {
        Mode::Single => DOCUMENT_BEGIN@ + spec_section(date, all) + DOCUMENT_END@,
        Mode::SplitTwo => DOCUMENT_BEGIN@ + spec_section(TITLE_ALL@, all) + PAGE_BREAK@
            + spec_section(TITLE_PERSON_A@, person_a) + PAGE_BREAK@ + spec_section(
            TITLE_PERSON_B@,
            person_b,
        ) + DOCUMENT_END@,
    }
}

proof fn lemma_item_lines_push(items: Seq<String>, item: String)
    ensures
        spec_item_lines(items.push(item)) == spec_item_lines(items) + ITEM_PREFIX@ + item@
            + NEWLINE@,
    decreases items.len(),
{
    if items.len() == 0 {
        assert(items.push(item)[0] == item);
        assert(items.push(item).drop_first() =~= Seq::<String>::empty());
        assert(spec_item_lines(Seq::<String>::empty()) == Seq::<char>::empty());
        assert(spec_item_lines(items.push(item)) == ITEM_PREFIX@ + item@ + NEWLINE@
            + Seq::<char>::empty());
        assert(spec_item_lines(items.push(item)) =~= spec_item_lines(items) + ITEM_PREFIX@ + item@
            + NEWLINE@);
    } else {
        assert(items.push(item)[0] == items[0]);
        assert(items.push(item).drop_first() =~= items.drop_first().push(item));
        lemma_item_lines_push(items.drop_first(), item);
        assert(spec_item_lines(items.push(item)) =~= spec_item_lines(items) + ITEM_PREFIX@ + item@
            + NEWLINE@);
    }
}

/// Append the list entries of one bucket to the document being built.
fn push_item_lines(doc: &mut String, items: &Vec<String>)
    ensures
        final(doc)@ == old(doc)@ + spec_item_lines(items@),
{
    let n = items.len();
    let mut i: usize = 0;
    while i < n
        invariant
            i <= n,
            n == items@.len(),
            doc@ == old(doc)@ + spec_item_lines(items@.take(i as int)),
        decreases n - i,
    {
        doc.append(ITEM_PREFIX);
        doc.append(items[i].as_str());
        doc.append(NEWLINE);
        proof {
            assert(items@.take(i + 1) =~= items@.take(i as int).push(items@[i as int]));
            lemma_item_lines_push(items@.take(i as int), items@[i as int]);
            assert(doc@ =~= old(doc)@ + spec_item_lines(items@.take(i + 1)));
        }
        i = i + 1;
    }
    proof {
        assert(items@.take(n as int) =~= items@);
    }
}

/// Append one titled section to the document being built.
fn push_section(doc: &mut String, title: &str, items: &Vec<String>)
    ensures
        final(doc)@ == old(doc)@ + spec_section(title@, items@),
{
    doc.append(HEADING_START);
    doc.append(title);
    doc.append(NEWLINE);
    doc.append(HEADING_ENDS);
    doc.append(BEGIN_BALANCED_LIST);
    push_item_lines(doc, items);
    doc.append(END_BALANCED_LIST);
    proof {
        assert(doc@ =~= old(doc)@ + spec_section(title@, items@));
    }
}

/// Render the buckets as a complete LaTeX document.
///
/// The result is exactly `spec_document` of the buckets as they stand,
/// the mode, and the given date stamp (used only in `Single` mode).
pub fn render_document(sorted: &Ingredients, mode: Mode, date: &str) -> (doc: String)
    ensures
        doc@ == spec_document(sorted.all@, sorted.person_a@, sorted.person_b@, mode, date@),
{
    let mut doc = String::new();
    doc.append(DOCUMENT_BEGIN);
    match mode {
        Mode::Single => {
            push_section(&mut doc, date, &sorted.all);
        },
        Mode::SplitTwo => {
            push_section(&mut doc, TITLE_ALL, &sorted.all);
            doc.append(PAGE_BREAK);
            push_section(&mut doc, TITLE_PERSON_A, &sorted.person_a);
            doc.append(PAGE_BREAK);
            push_section(&mut doc, TITLE_PERSON_B, &sorted.person_b);
        },
    }
    doc.append(DOCUMENT_END);
    proof {
        assert(doc@ =~= spec_document(sorted.all@, sorted.person_a@, sorted.person_b@, mode, date@));
    }
    doc
}

/// Partition the items under `mode` and render them as a complete LaTeX
/// document, titled in `Single` mode with today's date stamp.
///
/// The document is exactly `spec_document` of the items, their
/// even-position and odd-position halves, the mode, and some date stamp
/// of at least eight characters read from the system clock at the call.
pub fn compose_document(items: Vec<String>, mode: Mode) -> (doc: String)
    ensures
        exists|date: Seq<char>|
            date.len() >= 8 && doc@ == spec_document(
                items@,
                even_positions(items@),
                odd_positions(items@),
                mode,
                date,
            ),
{
    let date = today_stamp();
    let ghost items_view = items@;
    let sorted = crate::partition::sort_ingredients(items, mode);
    let doc = render_document(&sorted, mode, date.as_str());
    proof {
        if mode == Mode::Single {
            assert(spec_document(
                sorted.all@,
                sorted.person_a@,
                sorted.person_b@,
                mode,
                date@,
            ) == spec_document(
                items_view,
                even_positions(items_view),
                odd_positions(items_view),
                mode,
                date@,
            ));
        }
        assert(date@.len() >= 8 && doc@ == spec_document(
            items_view,
            even_positions(items_view),
            odd_positions(items_view),
            mode,
            date@,
        ));
    }
    doc
}

} // verus!
