//! Texts for the terminal: shortening a text to a column and reading a
//! description that comes as HTML.

use vstd::prelude::*;
use crate::api::{ApiResponse, Opportunity, OpportunityView};
use crate::text::{copy_opt, opt_text, texts};
use crate::text::{chars_of, push_char, replace_text, replaced, trim_bounds, trimmed};

verus! {

/// The character that ends a shortened text.
pub const ELLIPSIS: char = '\u{2026}';

/// `text` shortened to at most `max` characters: as it is where it has no
/// more, else its first `max - 1` characters and an ellipsis.
pub open spec fn truncated(text: Seq<char>, max: nat) -> Seq<char> {
    if text.len() <= max {
        text
    } else {
        text.take(max - 1).push(ELLIPSIS)
    }
}

/// Shortens `s` to at most `max` characters. A text that has to be shortened
/// needs room for the ellipsis.
pub fn truncate(s: &str, max: usize) -> (out: String)
    requires
        s@.len() <= max || max >= 1,
    ensures
        out@ == truncated(s@, max as nat),
{
    let chars = chars_of(s);
    if chars.len() <= max {
        return String::from_str(s);
    }
    let mut out = String::new();
    let mut i: usize = 0;
    while i < max - 1
        invariant
            0 <= i <= max - 1,
            max <= chars.len(),
            chars@ == s@,
            out@ == s@.take(i as int),
        decreases max - 1 - i,
    {
        push_char(&mut out, chars[i]);
        proof {
            assert(s@.take(i as int).push(s@[i as int]) =~= s@.take(i + 1));
        }
        i += 1;
    }
    push_char(&mut out, ELLIPSIS);
    out
}

/// Whether the text, read from its start, ends inside a tag: behind a `<`
/// that no `>` has closed.
pub open spec fn inside_tag(text: Seq<char>) -> bool
    decreases text.len(),
{
    if text.len() == 0 {
        false
    } else if text.last() == '<' {
        true
    } else if text.last() == '>' {
        false
    } else {
        inside_tag(text.drop_last())
    }
}

/// The text without its tags: without every `<`, every `>`, and every
/// character that stands inside a tag.
pub open spec fn tags_stripped(text: Seq<char>) -> Seq<char>
    decreases text.len(),
{
    if text.len() == 0 {
        Seq::empty()
    } else {
        let before = tags_stripped(text.drop_last());
        let c = text.last();
        if c == '<' || c == '>' || inside_tag(text.drop_last()) {
            before
        } else {
            before.push(c)
        }
    }
}

/// The text with the common entities replaced by the characters they stand
/// for, one entity after the other in this order.
pub open spec fn entities_decoded(text: Seq<char>) -> Seq<char> {
    let a = replaced(text, "&amp;"@, "&"@);
    let b = replaced(a, "&lt;"@, "<"@);
    let c = replaced(b, "&gt;"@, ">"@);
    let d = replaced(c, "&nbsp;"@, " "@);
    let e = replaced(d, "&#39;"@, "'"@);
    replaced(e, "&quot;"@, "\""@)
}

/// The lines of the text that a line feed ends, in order.
pub open spec fn ended_lines(text: Seq<char>) -> Seq<Seq<char>>
    decreases text.len(),
{
    if text.len() == 0 {
        Seq::empty()
    } else if text.last() == '\n' {
        ended_lines(text.drop_last()).push(open_line(text.drop_last()))
    } else {
        ended_lines(text.drop_last())
    }
}

/// What stands behind the last line feed of the text.
pub open spec fn open_line(text: Seq<char>) -> Seq<char>
    decreases text.len(),
{
    if text.len() == 0 {
        Seq::empty()
    } else if text.last() == '\n' {
        Seq::empty()
    } else {
        open_line(text.drop_last()).push(text.last())
    }
}

/// The lines of the text: those that a line feed ends, and what stands behind
/// the last line feed where anything does.
pub open spec fn lines_of(text: Seq<char>) -> Seq<Seq<char>> {
    if open_line(text).len() > 0 {
        ended_lines(text).push(open_line(text))
    } else {
        ended_lines(text)
    }
}

/// Whether the last of the lines is blank: empty once it is trimmed.
pub open spec fn ends_blank(lines: Seq<Seq<char>>) -> bool {
    lines.len() > 0 && trimmed(lines.last()).len() == 0
}

/// The lines, each trimmed and ended by a line feed, with every run of blank
/// lines collapsed into one empty line.
pub open spec fn collapsed(lines: Seq<Seq<char>>) -> Seq<char>
    decreases lines.len(),
{
    if lines.len() == 0 {
        Seq::empty()
    } else {
        let before = collapsed(lines.drop_last());
        let line = trimmed(lines.last());
        if line.len() > 0 {
            before + line + seq!['\n']
        } else if ends_blank(lines.drop_last()) {
            before
        } else {
            before.push('\n')
        }
    }
}

/// The readable text of a description that comes as HTML: the tags are
/// taken out, the common entities are decoded, every line is trimmed, and
/// runs of blank lines are collapsed into one.
pub open spec fn html_stripped(text: Seq<char>) -> Seq<char> {
    collapsed(lines_of(entities_decoded(tags_stripped(text))))
}

/// Appends one line to the collapsed text, as [`collapsed`] has it.
fn emit_line(out: &mut String, line: &Vec<char>, after_blank: bool) -> (blank: bool)
    ensures
        blank == (trimmed(line@).len() == 0),
        final(out)@ == (if trimmed(line@).len() > 0 {
            old(out)@ + trimmed(line@) + seq!['\n']
        } else if after_blank {
            old(out)@
        } else {
            old(out)@.push('\n')
        }),
{
    let (start, end) = trim_bounds(line);
    if start == end {
        if !after_blank {
            push_char(out, '\n');
        }
        return true;
    }
    let mut k: usize = start;
    proof {
        assert(old(out)@ + line@.subrange(start as int, start as int) =~= old(out)@);
    }
    while k < end
        invariant
            start <= k <= end <= line.len(),
            out@ == old(out)@ + line@.subrange(start as int, k as int),
        decreases end - k,
    {
        push_char(out, line[k]);
        proof {
            assert((old(out)@ + line@.subrange(start as int, k as int)).push(line@[k as int])
                =~= old(out)@ + line@.subrange(start as int, k + 1));
        }
        k += 1;
    }
    push_char(out, '\n');
    proof {
        assert(out@ =~= old(out)@ + trimmed(line@) + seq!['\n']);
    }
    false
}

/// The lines of a text, each trimmed and ended by a line feed, with every run
/// of blank lines collapsed into one empty line.
pub fn collapse_lines(text: &str) -> (out: String)
    ensures
        out@ == collapsed(lines_of(text@)),
{
    let chars = chars_of(text);
    let mut out = String::new();
    let mut line: Vec<char> = Vec::new();
    let mut after_blank = false;
    let mut i: usize = 0;
    proof {
        assert(text@.take(0) =~= Seq::empty());
    }
    while i < chars.len()
        invariant
            0 <= i <= chars.len(),
            chars@ == text@,
            out@ == collapsed(ended_lines(text@.take(i as int))),
            line@ == open_line(text@.take(i as int)),
            after_blank == ends_blank(ended_lines(text@.take(i as int))),
        decreases chars.len() - i,
    {
        let c = chars[i];
        proof {
            assert(text@.take(i + 1).drop_last() =~= text@.take(i as int));
            assert(text@.take(i + 1).last() == c);
        }
        if c == '\n' {
            proof {
                let lines = ended_lines(text@.take(i + 1));
                assert(lines.drop_last() =~= ended_lines(text@.take(i as int)));
                assert(lines.last() == line@);
            }
            after_blank = emit_line(&mut out, &line, after_blank);
            line = Vec::new();
        } else {
            line.push(c);
        }
        i += 1;
    }
    proof {
        assert(text@.take(i as int) =~= text@);
    }
    if line.len() > 0 {
        proof {
            let lines = lines_of(text@);
            assert(lines.drop_last() =~= ended_lines(text@));
            assert(lines.last() == line@);
        }
        let _ = emit_line(&mut out, &line, after_blank);
    }
    out
}

/// The text without its tags.
pub fn strip_tags(text: &str) -> (out: String)
    ensures
        out@ == tags_stripped(text@),
{
    let chars = chars_of(text);
    let mut out = String::new();
    let mut in_tag = false;
    let mut i: usize = 0;
    proof {
        assert(text@.take(0) =~= Seq::empty());
    }
    while i < chars.len()
        invariant
            0 <= i <= chars.len(),
            chars@ == text@,
            out@ == tags_stripped(text@.take(i as int)),
            in_tag == inside_tag(text@.take(i as int)),
        decreases chars.len() - i,
    {
        let c = chars[i];
        proof {
            assert(text@.take(i + 1).drop_last() =~= text@.take(i as int));
            assert(text@.take(i + 1).last() == c);
        }
        if c == '<' {
            in_tag = true;
        } else if c == '>' {
            in_tag = false;
        } else if !in_tag {
            push_char(&mut out, c);
        }
        i += 1;
    }
    proof {
        assert(text@.take(i as int) =~= text@);
    }
    out
}

/// The readable text of a description that comes as HTML. See
/// [`html_stripped`].
pub fn strip_html(s: &str) -> (out: String)
    ensures
        out@ == html_stripped(s@),
{
    let bare = strip_tags(s);
    let a = replace_text(bare.as_str(), "&amp;", "&");
    let b = replace_text(a.as_str(), "&lt;", "<");
    let c = replace_text(b.as_str(), "&gt;", ">");
    let d = replace_text(c.as_str(), "&nbsp;", " ");
    let e = replace_text(d.as_str(), "&#39;", "'");
    let f = replace_text(e.as_str(), "&quot;", "\"");
    collapse_lines(f.as_str())
}

/// What stands in a column for a value that is not there.
pub const DASH: char = '\u{2014}';

/// Width of the title column of a result table.
pub const TITLE_WIDTH: usize = 50;

/// Width of the organization column of a result table.
pub const ORGANIZATION_WIDTH: usize = 40;

/// One row of the table of search results.
#[derive(Debug, Clone)]
pub struct SearchRow {
    pub notice_id: String,
    pub title: String,
    pub opp_type: String,
    pub posted: String,
    pub org: String,
}

/// What a [`SearchRow`] holds, as plain mathematical values.
pub struct SearchRowView {
    pub notice_id: Seq<char>,
    pub title: Seq<char>,
    pub opp_type: Seq<char>,
    pub posted: Seq<char>,
    pub org: Seq<char>,
}

impl View for SearchRow {
    type V = SearchRowView;

    open spec fn view(&self) -> SearchRowView {
        SearchRowView {
            notice_id: self.notice_id@,
            title: self.title@,
            opp_type: self.opp_type@,
            posted: self.posted@,
            org: self.org@,
        }
    }
}

/// The value, or a dash where there is none.
pub open spec fn or_dash(value: Option<Seq<char>>) -> Seq<char> {
    match value {
        Some(text) => text,
        None => seq![DASH],
    }
}

/// The organization of a notice: its full path where it has one, else its
/// department, else its sub-tier.
pub open spec fn organization_of(opp: OpportunityView) -> Option<Seq<char>> {
    if opp.full_parent_path_name is Some {
        opp.full_parent_path_name
    } else if opp.department is Some {
        opp.department
    } else {
        opp.sub_tier
    }
}

/// The row that a notice gets in the table of search results: the title and
/// the organization shortened to their columns, a dash for what is not
/// there.
pub open spec fn search_row_of(opp: OpportunityView) -> SearchRowView {
    SearchRowView {
        notice_id: or_dash(opp.notice_id),
        title: truncated(or_dash(opp.title), TITLE_WIDTH as nat),
        opp_type: or_dash(opp.base_type),
        posted: or_dash(opp.posted_date),
        org: truncated(or_dash(organization_of(opp)), ORGANIZATION_WIDTH as nat),
    }
}

fn text_or_dash(value: &Option<String>) -> (text: String)
    ensures
        text@ == or_dash(crate::text::opt_text(*value)),
{
    match value {
        Some(text) => text.clone(),
        None => {
            let mut dash = String::new();
            push_char(&mut dash, DASH);
            proof {
                assert(dash@ =~= seq![DASH]);
            }
            dash
        },
    }
}

/// The row that a notice gets in the table of search results.
pub fn search_row(opp: &Opportunity) -> (row: SearchRow)
    ensures
        row@ == search_row_of(opp@),
{
    let organization = if opp.full_parent_path_name.is_some() {
        copy_opt(&opp.full_parent_path_name)
    } else if opp.department.is_some() {
        copy_opt(&opp.department)
    } else {
        copy_opt(&opp.sub_tier)
    };
    SearchRow {
        notice_id: text_or_dash(&opp.notice_id),
        title: truncate(text_or_dash(&opp.title).as_str(), TITLE_WIDTH),
        opp_type: text_or_dash(&opp.base_type),
        posted: text_or_dash(&opp.posted_date),
        org: truncate(text_or_dash(&organization).as_str(), ORGANIZATION_WIDTH),
    }
}

/// The views of a list of rows, in order.
pub open spec fn search_row_views(rows: Seq<SearchRow>) -> Seq<SearchRowView> {
    rows.map_values(|row: SearchRow| row@)
}

/// The table of search results of a response: one row for each record, in
/// order, and none for a response without a record array.
pub open spec fn search_rows_of(records: Option<Seq<OpportunityView>>) -> Seq<SearchRowView> {
    match records {
        Some(found) => found.map_values(|opp: OpportunityView| search_row_of(opp)),
        None => Seq::empty(),
    }
}

/// The table of search results of a response.
pub fn search_rows(response: &ApiResponse) -> (rows: Vec<SearchRow>)
    ensures
        search_row_views(rows@) == search_rows_of(response@.opportunities_data),
{
    let mut rows: Vec<SearchRow> = Vec::new();
    if let Some(records) = &response.opportunities_data {
        let mut i: usize = 0;
        while i < records.len()
            invariant
                0 <= i <= records.len(),
                rows@.len() == i,
                forall|j: int| 0 <= j < i ==> (#[trigger] rows@[j])@ == search_row_of(records@[j]@),
            decreases records.len() - i,
        {
            rows.push(search_row(&records[i]));
            i += 1;
        }
    }
    proof {
        assert(search_row_views(rows@) =~= search_rows_of(response@.opportunities_data));
    }
    rows
}

/// Width of the label column of a detail view.
pub const LABEL_WIDTH: usize = 22;

/// Lines of a description that a detail view shows at most.
pub const DESCRIPTION_LINES: usize = 30;

/// So many blanks.
pub open spec fn blanks(count: nat) -> Seq<char> {
    Seq::new(count, |i: int| ' ')
}

/// A label filled up with blanks to the width of the label column.
pub open spec fn label_column(label: Seq<char>) -> Seq<char> {
    if label.len() < LABEL_WIDTH {
        label + blanks((LABEL_WIDTH - label.len()) as nat)
    } else {
        label
    }
}

/// The line of a field: its label and its value; no line for a field without
/// a value.
pub open spec fn field_text(label: Seq<char>, value: Option<Seq<char>>) -> Seq<Seq<char>> {
    match value {
        Some(text) => seq!["  "@ + label_column(label) + " "@ + text],
        None => seq![],
    }
}

fn push_line(lines: &mut Vec<String>, line: String)
    ensures
        texts(final(lines)@) == texts(old(lines)@) + seq![line@],
{
    lines.push(line);
    proof {
        assert(texts(lines@) =~= texts(old(lines)@) + seq![line@]);
    }
}

fn push_str_line(lines: &mut Vec<String>, line: &str)
    ensures
        texts(final(lines)@) == texts(old(lines)@) + seq![line@],
{
    push_line(lines, String::from_str(line));
}

fn push_field(lines: &mut Vec<String>, label: &str, value: &Option<String>)
    ensures
        texts(final(lines)@) == texts(old(lines)@) + field_text(label@, opt_text(*value)),
{
    match value {
        None => {
            proof {
                assert(texts(lines@) =~= texts(lines@) + field_text(label@, opt_text(*value)));
            }
        },
        Some(text) => {
            let mut line = String::from_str("  ");
            line.append(label);
            let width = label.unicode_len();
            let ghost head = line@;
            let mut k: usize = width;
            proof {
                assert(head + blanks(0) =~= head);
            }
            while k < LABEL_WIDTH
                invariant
                    width <= k,
                    width < LABEL_WIDTH ==> k <= LABEL_WIDTH,
                    width >= LABEL_WIDTH ==> k == width,
                    line@ == head + blanks((k - width) as nat),
                decreases LABEL_WIDTH - k,
            {
                push_char(&mut line, ' ');
                proof {
                    assert((head + blanks((k - width) as nat)).push(' ') =~= head + blanks(
                        (k + 1 - width) as nat,
                    ));
                }
                k += 1;
            }
            proof {
                assert(head == "  "@ + label@);
                assert(width == label@.len());
                if width < LABEL_WIDTH {
                    assert(k == LABEL_WIDTH);
                } else {
                    assert(head + blanks((k - width) as nat) =~= head);
                }
                assert(line@ =~= "  "@ + label_column(label@));
            }
            line.append(" ");
            line.append(text.as_str());
            push_line(lines, line);
        },
    }
}

/// The name of a coded place.
pub open spec fn place_name_of(place: Option<crate::api::PlaceValueView>) -> Option<Seq<char>> {
    match place {
        Some(value) => value.name,
        None => None,
    }
}

/// The heading of a detail view and the fields that identify the notice.
pub open spec fn heading_block(opp: OpportunityView) -> Seq<Seq<char>> {
    seq![
        Seq::empty(),
        "  \u{2550}\u{2550}\u{2550} "@ + (match opp.title {
            Some(title) => title,
            None => "Untitled"@,
        }) + " \u{2550}\u{2550}\u{2550}"@,
        Seq::empty(),
    ] + field_text("Notice ID:"@, opp.notice_id) + field_text(
        "Solicitation #:"@,
        opp.solicitation_number,
    ) + field_text("Type:"@, opp.opp_type) + field_text("Base Type:"@, opp.base_type)
        + field_text("Active:"@, opp.active) + seq![Seq::empty()]
}

/// The organization of the notice.
pub open spec fn organization_block(opp: OpportunityView) -> Seq<Seq<char>> {
    seq!["  \u{2500}\u{2500} Organization \u{2500}\u{2500}"@] + field_text(
        "Organization:"@,
        opp.full_parent_path_name,
    ) + field_text("Department:"@, opp.department) + field_text("Sub-tier:"@, opp.sub_tier)
        + field_text("Office:"@, opp.office) + seq![Seq::empty()]
}

/// The dates of the notice.
pub open spec fn dates_block(opp: OpportunityView) -> Seq<Seq<char>> {
    seq!["  \u{2500}\u{2500} Dates \u{2500}\u{2500}"@] + field_text("Posted:"@, opp.posted_date)
        + field_text("Response Deadline:"@, opp.response_deadline) + field_text(
        "Archive Date:"@,
        opp.archive_date,
    ) + seq![Seq::empty()]
}

/// The classification of the notice.
pub open spec fn classification_block(opp: OpportunityView) -> Seq<Seq<char>> {
    seq!["  \u{2500}\u{2500} Classification \u{2500}\u{2500}"@] + field_text(
        "NAICS Code:"@,
        opp.naics_code,
    ) + field_text("Classification Code:"@, opp.classification_code) + field_text(
        "Set-Aside:"@,
        opp.set_aside,
    ) + field_text("Set-Aside Desc:"@, opp.set_aside_description) + seq![Seq::empty()]
}

/// The organization, the dates and the classification of the notice.
pub open spec fn body_block(opp: OpportunityView) -> Seq<Seq<char>> {
    organization_block(opp) + dates_block(opp) + classification_block(opp)
}

/// The place of performance, where the notice has one.
pub open spec fn place_block(opp: OpportunityView) -> Seq<Seq<char>> {
    match opp.place_of_performance {
        None => seq![],
        Some(place) => seq!["  \u{2500}\u{2500} Place of Performance \u{2500}\u{2500}"@]
            + field_text("City:"@, place_name_of(place.city)) + field_text(
            "State:"@,
            place_name_of(place.state),
        ) + field_text("Country:"@, place_name_of(place.country)) + field_text(
            "ZIP:"@,
            place.zip,
        ) + seq![Seq::empty()],
    }
}

/// The lines of one contact: its name behind its type, its email and its
/// phone, each where it is there.
pub open spec fn contact_text(contact: crate::api::PointOfContactView) -> Seq<Seq<char>> {
    (match contact.full_name {
        Some(name) => seq![
            "    "@ + (match contact.contact_type {
                Some(kind) => kind,
                None => Seq::empty(),
            }) + " "@ + name,
        ],
        None => seq![],
    }) + (match contact.email {
        Some(email) => seq!["      Email: "@ + email],
        None => seq![],
    }) + (match contact.phone {
        Some(phone) => seq!["      Phone: "@ + phone],
        None => seq![],
    })
}

/// The lines of the contacts, one contact after the other.
pub open spec fn contacts_text(contacts: Seq<crate::api::PointOfContactView>) -> Seq<Seq<char>>
    decreases contacts.len(),
{
    if contacts.len() == 0 {
        seq![]
    } else {
        contacts_text(contacts.drop_last()) + contact_text(contacts.last())
    }
}

/// The contacts of the notice, where it has any.
pub open spec fn contacts_block(opp: OpportunityView) -> Seq<Seq<char>> {
    match opp.point_of_contact {
        Some(contacts) => if contacts.len() > 0 {
            seq!["  \u{2500}\u{2500} Point(s) of Contact \u{2500}\u{2500}"@] + contacts_text(
                contacts,
            ) + seq![Seq::empty()]
        } else {
            seq![]
        },
        None => seq![],
    }
}

/// The award of the notice, where it has one.
pub open spec fn award_block(opp: OpportunityView) -> Seq<Seq<char>> {
    match opp.award {
        None => seq![],
        Some(award) => seq!["  \u{2500}\u{2500} Award \u{2500}\u{2500}"@] + field_text(
            "Amount:"@,
            award.amount,
        ) + field_text("Date:"@, award.date) + field_text("Number:"@, award.number) + (
        match award.awardee {
            Some(awardee) => field_text("Awardee:"@, awardee.name) + field_text(
                "UEI:"@,
                awardee.uei_sam,
            ),
            None => seq![],
        }) + seq![Seq::empty()],
    }
}

/// One line for each link.
pub open spec fn link_lines(links: Seq<Seq<char>>) -> Seq<Seq<char>> {
    links.map_values(|link: Seq<char>| "  Resource: "@ + link)
}

/// The links of the notice.
pub open spec fn links_block(opp: OpportunityView) -> Seq<Seq<char>> {
    (match opp.ui_link {
        Some(link) => seq![
            "  \u{2500}\u{2500} Links \u{2500}\u{2500}"@,
            "  SAM.gov:  "@ + link,
        ],
        None => seq![],
    }) + (match opp.resource_links {
        Some(links) => link_lines(links),
        None => seq![],
    })
}

/// The lines indented by two blanks.
pub open spec fn indented(lines: Seq<Seq<char>>) -> Seq<Seq<char>> {
    lines.map_values(|line: Seq<char>| "  "@ + line)
}

/// The description of the notice as readable text: its first
/// [`DESCRIPTION_LINES`] lines, and a note where it has more.
pub open spec fn description_block(opp: OpportunityView) -> Seq<Seq<char>> {
    match opp.description {
        None => seq![],
        Some(description) => {
            let lines = lines_of(html_stripped(description));
            seq![Seq::empty(), "  \u{2500}\u{2500} Description \u{2500}\u{2500}"@] + (if lines.len()
                > DESCRIPTION_LINES {
                indented(lines.take(DESCRIPTION_LINES as int)) + seq!["  ... (truncated)"@]
            } else {
                indented(lines)
            })
        },
    }
}

/// The lines of the detail view of a notice.
pub open spec fn detail_text(opp: OpportunityView) -> Seq<Seq<char>> {
    heading_block(opp) + body_block(opp) + place_block(opp) + contacts_block(opp) + award_block(
        opp,
    ) + links_block(opp) + description_block(opp) + seq![Seq::empty()]
}

fn push_heading(lines: &mut Vec<String>, opp: &Opportunity)
    ensures
        texts(final(lines)@) == texts(old(lines)@) + heading_block(opp@),
{
    push_line(lines, String::new());
    let mut title = String::from_str("  \u{2550}\u{2550}\u{2550} ");
    match &opp.title {
        Some(text) => title.append(text.as_str()),
        None => title.append("Untitled"),
    }
    title.append(" \u{2550}\u{2550}\u{2550}");
    push_line(lines, title);
    push_line(lines, String::new());
    push_field(lines, "Notice ID:", &opp.notice_id);
    push_field(lines, "Solicitation #:", &opp.solicitation_number);
    push_field(lines, "Type:", &opp.opp_type);
    push_field(lines, "Base Type:", &opp.base_type);
    push_field(lines, "Active:", &opp.active);
    push_line(lines, String::new());
    proof {
        assert(texts(lines@) =~= texts(old(lines)@) + heading_block(opp@));
    }
}

fn push_organization(lines: &mut Vec<String>, opp: &Opportunity)
    ensures
        texts(final(lines)@) == texts(old(lines)@) + organization_block(opp@),
{
    push_str_line(lines, "  \u{2500}\u{2500} Organization \u{2500}\u{2500}");
    push_field(lines, "Organization:", &opp.full_parent_path_name);
    push_field(lines, "Department:", &opp.department);
    push_field(lines, "Sub-tier:", &opp.sub_tier);
    push_field(lines, "Office:", &opp.office);
    push_line(lines, String::new());
    proof {
        assert(texts(lines@) =~= texts(old(lines)@) + organization_block(opp@));
    }
}

fn push_dates(lines: &mut Vec<String>, opp: &Opportunity)
    ensures
        texts(final(lines)@) == texts(old(lines)@) + dates_block(opp@),
{
    push_str_line(lines, "  \u{2500}\u{2500} Dates \u{2500}\u{2500}");
    push_field(lines, "Posted:", &opp.posted_date);
    push_field(lines, "Response Deadline:", &opp.response_deadline);
    push_field(lines, "Archive Date:", &opp.archive_date);
    push_line(lines, String::new());
    proof {
        assert(texts(lines@) =~= texts(old(lines)@) + dates_block(opp@));
    }
}

fn push_classification(lines: &mut Vec<String>, opp: &Opportunity)
    ensures
        texts(final(lines)@) == texts(old(lines)@) + classification_block(opp@),
{
    push_str_line(lines, "  \u{2500}\u{2500} Classification \u{2500}\u{2500}");
    push_field(lines, "NAICS Code:", &opp.naics_code);
    push_field(lines, "Classification Code:", &opp.classification_code);
    push_field(lines, "Set-Aside:", &opp.set_aside);
    push_field(lines, "Set-Aside Desc:", &opp.set_aside_description);
    push_line(lines, String::new());
    proof {
        assert(texts(lines@) =~= texts(old(lines)@) + classification_block(opp@));
    }
}

fn push_body(lines: &mut Vec<String>, opp: &Opportunity)
    ensures
        texts(final(lines)@) == texts(old(lines)@) + body_block(opp@),
{
    push_organization(lines, opp);
    push_dates(lines, opp);
    push_classification(lines, opp);
    proof {
        assert(texts(lines@) =~= texts(old(lines)@) + body_block(opp@));
    }
}

fn push_place_name(lines: &mut Vec<String>, label: &str, place: &Option<crate::api::PlaceValue>)
    ensures
        texts(final(lines)@) == texts(old(lines)@) + field_text(
            label@,
            place_name_of(crate::api::opt_place_value(*place)),
        ),
{
    match place {
        Some(value) => push_field(lines, label, &value.name),
        None => {
            proof {
                assert(texts(lines@) =~= texts(lines@) + Seq::<Seq<char>>::empty());
            }
        },
    }
}

fn push_place(lines: &mut Vec<String>, opp: &Opportunity)
    ensures
        texts(final(lines)@) == texts(old(lines)@) + place_block(opp@),
{
    match &opp.place_of_performance {
        None => {},
        Some(place) => {
            push_str_line(lines, "  \u{2500}\u{2500} Place of Performance \u{2500}\u{2500}");
            push_place_name(lines, "City:", &place.city);
            push_place_name(lines, "State:", &place.state);
            push_place_name(lines, "Country:", &place.country);
            push_field(lines, "ZIP:", &place.zip);
            push_line(lines, String::new());
        },
    }
    proof {
        assert(texts(lines@) =~= texts(old(lines)@) + place_block(opp@));
    }
}

fn push_contact(lines: &mut Vec<String>, contact: &crate::api::PointOfContact)
    ensures
        texts(final(lines)@) == texts(old(lines)@) + contact_text(contact@),
{
    if let Some(name) = &contact.full_name {
        let mut line = String::from_str("    ");
        if let Some(kind) = &contact.contact_type {
            line.append(kind.as_str());
        }
        line.append(" ");
        line.append(name.as_str());
        proof {
            assert(line@ =~= "    "@ + (match contact@.contact_type {
                Some(kind) => kind,
                None => Seq::empty(),
            }) + " "@ + name@);
        }
        push_line(lines, line);
    }
    if let Some(email) = &contact.email {
        let mut line = String::from_str("      Email: ");
        line.append(email.as_str());
        push_line(lines, line);
    }
    if let Some(phone) = &contact.phone {
        let mut line = String::from_str("      Phone: ");
        line.append(phone.as_str());
        push_line(lines, line);
    }
    proof {
        assert(texts(lines@) =~= texts(old(lines)@) + contact_text(contact@));
    }
}

fn push_contacts(lines: &mut Vec<String>, opp: &Opportunity)
    ensures
        texts(final(lines)@) == texts(old(lines)@) + contacts_block(opp@),
{
    if let Some(contacts) = &opp.point_of_contact {
        if contacts.len() > 0 {
            let ghost all = opp@.point_of_contact.unwrap();
            push_str_line(lines, "  \u{2500}\u{2500} Point(s) of Contact \u{2500}\u{2500}");
            let ghost head = texts(lines@);
            let mut i: usize = 0;
            proof {
                assert(all.take(0) =~= Seq::empty());
                assert(head + contacts_text(all.take(0)) =~= head);
            }
            while i < contacts.len()
                invariant
                    0 <= i <= contacts.len(),
                    all.len() == contacts.len(),
                    forall|j: int| 0 <= j < all.len() ==> (#[trigger] all[j]) == contacts@[j]@,
                    texts(lines@) == head + contacts_text(all.take(i as int)),
                decreases contacts.len() - i,
            {
                push_contact(lines, &contacts[i]);
                proof {
                    assert(all.take(i + 1).drop_last() =~= all.take(i as int));
                    assert(all.take(i + 1).last() == contacts@[i as int]@);
                    assert(head + contacts_text(all.take(i as int)) + contact_text(
                        contacts@[i as int]@,
                    ) =~= head + contacts_text(all.take(i + 1)));
                }
                i += 1;
            }
            proof {
                assert(all.take(i as int) =~= all);
            }
            push_line(lines, String::new());
        }
    }
    proof {
        assert(texts(lines@) =~= texts(old(lines)@) + contacts_block(opp@));
    }
}

fn push_award(lines: &mut Vec<String>, opp: &Opportunity)
    ensures
        texts(final(lines)@) == texts(old(lines)@) + award_block(opp@),
{
    if let Some(award) = &opp.award {
        push_str_line(lines, "  \u{2500}\u{2500} Award \u{2500}\u{2500}");
        push_field(lines, "Amount:", &award.amount);
        push_field(lines, "Date:", &award.date);
        push_field(lines, "Number:", &award.number);
        if let Some(awardee) = &award.awardee {
            push_field(lines, "Awardee:", &awardee.name);
            push_field(lines, "UEI:", &awardee.uei_sam);
        }
        push_line(lines, String::new());
    }
    proof {
        assert(texts(lines@) =~= texts(old(lines)@) + award_block(opp@));
    }
}

fn push_prefixed(lines: &mut Vec<String>, prefix: &str, items: &Vec<String>, count: usize)
    requires
        count <= items.len(),
    ensures
        texts(final(lines)@) == texts(old(lines)@) + texts(items@).take(count as int).map_values(
            |item: Seq<char>| prefix@ + item,
        ),
{
    let mut i: usize = 0;
    proof {
        assert(texts(lines@) =~= texts(lines@) + texts(items@).take(0).map_values(
            |item: Seq<char>| prefix@ + item,
        ));
    }
    while i < count
        invariant
            0 <= i <= count <= items.len(),
            texts(lines@) == texts(old(lines)@) + texts(items@).take(i as int).map_values(
                |item: Seq<char>| prefix@ + item,
            ),
        decreases count - i,
    {
        let mut line = String::from_str(prefix);
        line.append(items[i].as_str());
        let ghost before = texts(lines@);
        push_line(lines, line);
        proof {
            assert(before + seq![prefix@ + items@[i as int]@] =~= texts(old(lines)@) + texts(
                items@,
            ).take(i + 1).map_values(|item: Seq<char>| prefix@ + item));
        }
        i += 1;
    }
}

fn push_links(lines: &mut Vec<String>, opp: &Opportunity)
    ensures
        texts(final(lines)@) == texts(old(lines)@) + links_block(opp@),
{
    if let Some(link) = &opp.ui_link {
        push_str_line(lines, "  \u{2500}\u{2500} Links \u{2500}\u{2500}");
        let mut line = String::from_str("  SAM.gov:  ");
        line.append(link.as_str());
        push_line(lines, line);
    }
    if let Some(links) = &opp.resource_links {
        push_prefixed(lines, "  Resource: ", links, links.len());
        proof {
            assert(texts(links@).take(links.len() as int) =~= texts(links@));
        }
    }
    proof {
        assert(texts(lines@) =~= texts(old(lines)@) + links_block(opp@));
    }
}

/// The lines of a text. See [`lines_of`].
pub fn split_lines(text: &str) -> (lines: Vec<String>)
    ensures
        texts(lines@) == lines_of(text@),
{
    let chars = chars_of(text);
    let mut lines: Vec<String> = Vec::new();
    let mut line = String::new();
    let mut i: usize = 0;
    proof {
        assert(text@.take(0) =~= Seq::empty());
        assert(texts(lines@) =~= ended_lines(text@.take(0)));
    }
    while i < chars.len()
        invariant
            0 <= i <= chars.len(),
            chars@ == text@,
            texts(lines@) == ended_lines(text@.take(i as int)),
            line@ == open_line(text@.take(i as int)),
        decreases chars.len() - i,
    {
        let c = chars[i];
        proof {
            assert(text@.take(i + 1).drop_last() =~= text@.take(i as int));
            assert(text@.take(i + 1).last() == c);
        }
        if c == '\n' {
            let ghost done = texts(lines@);
            lines.push(line);
            proof {
                assert(texts(lines@) =~= done.push(line@));
            }
            line = String::new();
        } else {
            push_char(&mut line, c);
        }
        i += 1;
    }
    proof {
        assert(text@.take(i as int) =~= text@);
    }
    if line.as_str().unicode_len() > 0 {
        let ghost done = texts(lines@);
        lines.push(line);
        proof {
            assert(texts(lines@) =~= done.push(line@));
        }
    }
    lines
}

fn push_description(lines: &mut Vec<String>, opp: &Opportunity)
    ensures
        texts(final(lines)@) == texts(old(lines)@) + description_block(opp@),
{
    if let Some(description) = &opp.description {
        push_line(lines, String::new());
        push_str_line(lines, "  \u{2500}\u{2500} Description \u{2500}\u{2500}");
        let clean = strip_html(description.as_str());
        let shown = split_lines(clean.as_str());
        if shown.len() > DESCRIPTION_LINES {
            push_prefixed(lines, "  ", &shown, DESCRIPTION_LINES);
            push_str_line(lines, "  ... (truncated)");
        } else {
            push_prefixed(lines, "  ", &shown, shown.len());
            proof {
                assert(texts(shown@).take(shown.len() as int) =~= texts(shown@));
            }
        }
    }
    proof {
        assert(texts(lines@) =~= texts(old(lines)@) + description_block(opp@));
    }
}

/// The lines of the detail view of a notice. See [`detail_text`].
pub fn detail_lines(opp: &Opportunity) -> (lines: Vec<String>)
    ensures
        texts(lines@) == detail_text(opp@),
{
    let mut lines: Vec<String> = Vec::new();
    proof {
        assert(texts(lines@) =~= Seq::empty());
    }
    push_heading(&mut lines, opp);
    push_body(&mut lines, opp);
    push_place(&mut lines, opp);
    push_contacts(&mut lines, opp);
    push_award(&mut lines, opp);
    push_links(&mut lines, opp);
    push_description(&mut lines, opp);
    push_line(&mut lines, String::new());
    proof {
        assert(texts(lines@) =~= detail_text(opp@));
    }
    lines
}

} // verus!
