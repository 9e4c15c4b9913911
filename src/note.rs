//! Rendering of one ticket as a release note.

use vstd::prelude::*;

use crate::extra_fields::status_short_form;
use crate::templating::DocumentVariant;
use crate::ticket::{tracker_short_name, AbstractTicket};

verus! {

/// Whether `c` is white space, as Unicode's `White_Space` property defines it.
pub open spec fn is_white_space(c: char) -> bool {
    let n = c as u32;
    ||| 0x9 <= n <= 0xd
    ||| n == 0x20
    ||| n == 0x85
    ||| n == 0xa0
    ||| n == 0x1680
    ||| 0x2000 <= n <= 0x200a
    ||| n == 0x2028
    ||| n == 0x2029
    ||| n == 0x202f
    ||| n == 0x205f
    ||| n == 0x3000
}

/// The line being written at the end of `s`: what follows its last newline.
pub open spec fn open_line(s: Seq<char>) -> Seq<char>
    decreases s.len(),
{
    if s.len() == 0 {
        Seq::empty()
    } else if s.last() == '\n' {
        Seq::empty()
    } else {
        open_line(s.drop_last()).push(s.last())
    }
}

/// A line without the carriage return that ends it, if any.
pub open spec fn without_trailing_cr(line: Seq<char>) -> Seq<char> {
    if line.len() > 0 && line.last() == '\r' {
        line.drop_last()
    } else {
        line
    }
}

/// The lines of `s` that a newline ends, each without its line ending
/// (`\n` or `\r\n`).
pub open spec fn ended_lines(s: Seq<char>) -> Seq<Seq<char>>
    decreases s.len(),
{
    if s.len() == 0 {
        Seq::empty()
    } else if s.last() == '\n' {
        ended_lines(s.drop_last()).push(without_trailing_cr(open_line(s.drop_last())))
    } else {
        ended_lines(s.drop_last())
    }
}

/// The lines of `s`: those that a newline ends, and the last one where it is
/// not empty.
pub open spec fn text_lines(s: Seq<char>) -> Seq<Seq<char>> {
    if open_line(s).len() > 0 {
        ended_lines(s).push(open_line(s))
    } else {
        ended_lines(s)
    }
}

/// A line that carries text: not blank, and not a comment starting with `//`.
pub open spec fn is_content_line(line: Seq<char>) -> bool {
    &&& exists|i: int| 0 <= i < line.len() && !is_white_space(#[trigger] line[i])
    &&& !(line.len() >= 2 && line[0] == '/' && line[1] == '/')
}

/// The lines of a doc text that carry text, in order.
pub open spec fn spec_content_lines(s: Seq<char>) -> Seq<Seq<char>> {
    text_lines(s).filter(content_filter())
}

/// `is_content_line` as a predicate value, for filtering.
pub open spec fn content_filter() -> spec_fn(Seq<char>) -> bool {
    |line: Seq<char>| is_content_line(line)
}

/// The views of a sequence of string slices.
pub open spec fn str_views(v: Seq<&str>) -> Seq<Seq<char>> {
    v.map_values(|x: &str| x@)
}

/// Whether `c` is white space.
fn white_space(c: char) -> (r: bool)
    ensures
        r == is_white_space(c),
{
    let n = c as u32;
    (0x9 <= n && n <= 0xd) || n == 0x20 || n == 0x85 || n == 0xa0 || n == 0x1680 || (0x2000 <= n
        && n <= 0x200a) || n == 0x2028 || n == 0x2029 || n == 0x202f || n == 0x205f || n == 0x3000
}

/// Whether a line carries text.
fn content_line(line: &str) -> (r: bool)
    ensures
        r == is_content_line(line@),
{
    let len = line.unicode_len();
    if len >= 2 && line.get_char(0) == '/' && line.get_char(1) == '/' {
        return false;
    }
    let mut i: usize = 0;
    while i < len
        invariant
            len == line@.len(),
            i <= len,
            !(line@.len() >= 2 && line@[0] == '/' && line@[1] == '/'),
            forall|j: int| 0 <= j < i ==> is_white_space(#[trigger] line@[j]),
        decreases len - i,
    {
        if !white_space(line.get_char(i)) {
            assert(!is_white_space(line@[i as int]));
            return true;
        }
        i = i + 1;
    }
    false
}

/// Pulls out the lines of a doc text that are neither blank nor comments:
/// the actual text of the release note.
pub fn content_lines<'a>(doc_text: &'a str) -> (r: Vec<&'a str>)
    ensures
        str_views(r@) == spec_content_lines(doc_text@),
{
    let ghost s = doc_text@;
    let ghost keep = content_filter();
    let len = doc_text.unicode_len();
    let mut lines: Vec<&'a str> = Vec::new();
    let mut start: usize = 0;
    let mut i: usize = 0;
    assert(s.take(0) =~= Seq::<char>::empty());
    while i < len
        invariant
            len == s.len(),
            s == doc_text@,
            keep == content_filter(),
            start <= i <= len,
            open_line(s.take(i as int)) =~= s.subrange(start as int, i as int),
            str_views(lines@) == ended_lines(s.take(i as int)).filter(keep),
        decreases len - i,
    {
        let c = doc_text.get_char(i);
        assert(s.take(i + 1).drop_last() =~= s.take(i as int));
        if c == '\n' {
            let mut end = i;
            if end > start && doc_text.get_char(end - 1) == '\r' {
                end = end - 1;
            }
            let line = doc_text.substring_char(start, end);
            assert(line@ =~= without_trailing_cr(s.subrange(start as int, i as int)));
            assert(s.take(i + 1).last() == '\n');
            assert(ended_lines(s.take(i + 1)) == ended_lines(s.take(i as int)).push(line@));
            let ghost before = lines@;
            let ghost done = ended_lines(s.take(i as int));
            let is_content = content_line(line);
            proof {
                done.lemma_filter_push(line@, keep);
                assert(keep(line@) == is_content);
            }
            if is_content {
                lines.push(line);
                assert(str_views(lines@) =~= str_views(before).push(line@));
            }
            assert(str_views(lines@) =~= ended_lines(s.take(i + 1)).filter(keep));
            start = i + 1;
        } else {
            assert(s.subrange(start as int, i + 1) =~= s.subrange(start as int, i as int).push(c));
        }
        i = i + 1;
    }
    assert(s.take(len as int) =~= s);
    if start < len {
        let line = doc_text.substring_char(start, len);
        let ghost before = lines@;
        let is_content = content_line(line);
        proof {
            ended_lines(s).lemma_filter_push(line@, keep);
            assert(keep(line@) == is_content);
        }
        if is_content {
            lines.push(line);
            assert(str_views(lines@) =~= str_views(before).push(line@));
        }
    }
    assert(str_views(lines@) =~= spec_content_lines(s));
    lines
}

/// A text without its carriage returns.
pub open spec fn without_cr(s: Seq<char>) -> Seq<char> {
    s.filter(|c: char| c != '\r')
}

/// The citation of a ticket: a link where the ticket is public, its bare key
/// otherwise.
pub open spec fn spec_signature(t: AbstractTicket) -> Seq<char> {
    if t.public {
        "link:"@ + t.url@ + "["@ + t.id.key@ + "]"@
    } else {
        t.id.key@
    }
}

/// Each item preceded by a comma and a space, all concatenated.
pub open spec fn comma_prefixed(items: Seq<String>) -> Seq<char>
    decreases items.len(),
{
    if items.len() == 0 {
        Seq::empty()
    } else {
        comma_prefixed(items.drop_last()) + ", "@ + items.last()@
    }
}

/// The ticket's own signature followed by those of its references,
/// comma-separated and in parentheses.
pub open spec fn spec_all_signatures(t: AbstractTicket) -> Seq<char> {
    "("@ + spec_signature(t) + comma_prefixed(t.references@) + ")"@
}

/// The AsciiDoc line that sets the note's anchor.
pub open spec fn spec_anchor(t: AbstractTicket) -> Seq<char> {
    "[id=\""@ + tracker_short_name(t.id.tracker) + "-"@ + t.id.key@ + "\"]"@
}

/// The docs contact, or a placeholder where the ticket names none.
pub open spec fn contact_or_placeholder(t: AbstractTicket) -> Seq<char> {
    if t.docs_contact@.len() == 0 {
        "No docs contact"@
    } else {
        t.docs_contact@
    }
}

/// The debug line: docs contact, status and a link to the ticket.
pub open spec fn spec_debug_line(t: AbstractTicket) -> Seq<char> {
    "| "@ + contact_or_placeholder(t) + " | "@ + status_short_form(t.doc_text_status) + " | link:"@
        + t.url@ + "[]"@
}

/// The block shown for a ticket whose doc text has no content.
pub open spec fn spec_placeholder(t: AbstractTicket) -> Seq<char> {
    spec_anchor(t) + "\n.\u{1f6a7} "@ + t.summary@ + " "@ + spec_debug_line(t)
        + " \n\n**No release note.**"@
}

/// Whether the ticket's doc text has no line of content.
pub open spec fn has_empty_doc_text(t: AbstractTicket) -> bool {
    spec_content_lines(t.doc_text@).len() == 0
}

/// The release note of a ticket with some doc text, before the variant's
/// ending.
pub open spec fn spec_note_body(t: AbstractTicket) -> Seq<char> {
    spec_anchor(t) + "\n"@ + without_cr(t.doc_text@) + "\n\n"@ + spec_all_signatures(t) + " "@
}

/// The release note of a ticket in a document variant.
pub open spec fn spec_release_note(t: AbstractTicket, variant: DocumentVariant) -> Seq<char> {
    if has_empty_doc_text(t) {
        spec_placeholder(t)
    } else if variant == DocumentVariant::Internal {
        spec_note_body(t) + spec_debug_line(t)
    } else {
        spec_note_body(t)
    }
}

/// Relies on `str::replace`, with a carriage return as the pattern and the
/// empty string as the replacement: the text with every carriage return
/// removed.
#[verifier::external_body]
fn remove_carriage_returns(s: &str) -> (r: String)
    ensures
        r@ == without_cr(s@),
{
    s.replace('\r', "")
}

impl AbstractTicket {
    /// Composes the release note of the ticket.
    pub fn release_note(&self, variant: DocumentVariant) -> (r: String)
        ensures
            r@ == spec_release_note(*self, variant),
    {
        let anchor = self.anchor();
        let debug_info = self.debug_line();
        let lines = content_lines(self.doc_text.as_str());
        if lines.len() == 0 {
            proof {
                assert(str_views(lines@).len() == 0);
            }
            let mut note = anchor;
            note.append("\n.\u{1f6a7} ");
            note.append(self.summary.as_str());
            note.append(" ");
            note.append(debug_info.as_str());
            note.append(" \n\n**No release note.**");
            note
        } else {
            proof {
                assert(str_views(lines@).len() != 0);
            }
            let doc_text_unix = remove_carriage_returns(self.doc_text.as_str());
            let signatures = self.all_signatures();
            let mut note = anchor;
            note.append("\n");
            note.append(doc_text_unix.as_str());
            note.append("\n\n");
            note.append(signatures.as_str());
            note.append(" ");
            if variant == DocumentVariant::Internal {
                note.append(debug_info.as_str());
            }
            note
        }
    }

    /// The debug line of the note.
    fn debug_line(&self) -> (r: String)
        ensures
            r@ == spec_debug_line(*self),
    {
        let mut line = String::from_str("| ");
        if self.docs_contact.as_str().unicode_len() == 0 {
            line.append("No docs contact");
        } else {
            line.append(self.docs_contact.as_str());
        }
        line.append(" | ");
        line.append(self.doc_text_status.short_form());
        line.append(" | link:");
        line.append(self.url.as_str());
        line.append("[]");
        line
    }

    /// The link, or the non-clickable key, that marks this ticket's note.
    pub fn signature(&self) -> (r: String)
        ensures
            r@ == spec_signature(*self),
    {
        if self.public {
            let mut s = String::from_str("link:");
            s.append(self.url.as_str());
            s.append("[");
            s.append(self.id.key.as_str());
            s.append("]");
            s
        } else {
            String::from_str(self.id.key.as_str())
        }
    }

    /// The signatures of this ticket and of all its references,
    /// comma-separated and enclosed in parentheses.
    fn all_signatures(&self) -> (r: String)
        ensures
            r@ == spec_all_signatures(*self),
    {
        let mut list = String::from_str("(");
        let own = self.signature();
        list.append(own.as_str());
        let mut i: usize = 0;
        while i < self.references.len()
            invariant
                i <= self.references@.len(),
                list@ == "("@ + spec_signature(*self) + comma_prefixed(
                    self.references@.take(i as int),
                ),
            decreases self.references@.len() - i,
        {
            assert(self.references@.take(i + 1).drop_last() =~= self.references@.take(i as int));
            list.append(", ");
            list.append(self.references[i].as_str());
            i = i + 1;
        }
        assert(self.references@.take(i as int) =~= self.references@);
        list.append(")");
        list
    }

    /// The AsciiDoc ID line that sets an HTML anchor for the note.
    fn anchor(&self) -> (r: String)
        ensures
            r@ == spec_anchor(*self),
    {
        let mut line = String::from_str("[id=\"");
        line.append(self.id.tracker.short_name());
        line.append("-");
        line.append(self.id.key.as_str());
        line.append("\"]");
        line
    }
}

/// Whether a text holds no carriage return.
pub open spec fn has_no_cr(s: Seq<char>) -> bool {
    forall|i: int| 0 <= i < s.len() ==> s[i] != '\r'
}

/// A public ticket is cited by a link to its url labelled with its key; any
/// other ticket by its bare key, whatever its url.
pub proof fn lemma_signature_form(t: AbstractTicket)
    ensures
        t.public ==> spec_signature(t) == "link:"@ + t.url@ + "["@ + t.id.key@ + "]"@,
        !t.public ==> spec_signature(t) == t.id.key@,
        !has_empty_doc_text(t) ==> spec_release_note(t, DocumentVariant::Public) == spec_anchor(t)
            + "\n"@ + without_cr(t.doc_text@) + "\n\n"@ + "("@ + spec_signature(t)
            + comma_prefixed(t.references@) + ")"@ + " "@,
{
}

/// Rendering is a function of the ticket and the variant: two renderings of
/// the same ticket in the same variant are the same text.
pub proof fn lemma_release_note_deterministic(
    t: AbstractTicket,
    variant: DocumentVariant,
    first: Seq<char>,
    second: Seq<char>,
)
    requires
        first == spec_release_note(t, variant),
        second == spec_release_note(t, variant),
    ensures
        first == second,
{
}

/// A doc text made only of blank and comment lines renders as the
/// placeholder block, which ends in `**No release note.**`, in both variants.
pub proof fn lemma_no_content_placeholder(t: AbstractTicket, variant: DocumentVariant)
    requires
        forall|i: int|
            0 <= i < text_lines(t.doc_text@).len() ==> !is_content_line(
                #[trigger] text_lines(t.doc_text@)[i],
            ),
    ensures
        spec_release_note(t, variant) == spec_placeholder(t),
        spec_placeholder(t) == spec_anchor(t) + "\n.\u{1f6a7} "@ + t.summary@ + " "@
            + spec_debug_line(t) + " \n\n**No release note.**"@,
{
    let lines = text_lines(t.doc_text@);
    assert(lines.all(|x: Seq<char>| !content_filter()(x)));
    lines.lemma_all_neg_filter_empty(content_filter());
}

/// A non-empty note differs between the variants only by the debug line that
/// ends the internal one; an empty note is the same in both.
pub proof fn lemma_variants_differ_by_debug_line(t: AbstractTicket)
    ensures
        !has_empty_doc_text(t) ==> spec_release_note(t, DocumentVariant::Internal)
            == spec_release_note(t, DocumentVariant::Public) + spec_debug_line(t),
        has_empty_doc_text(t) ==> spec_release_note(t, DocumentVariant::Internal)
            == spec_release_note(t, DocumentVariant::Public),
{
}

proof fn lemma_concat_no_cr(a: Seq<char>, b: Seq<char>)
    requires
        has_no_cr(a),
        has_no_cr(b),
    ensures
        has_no_cr(a + b),
{
    assert forall|i: int| 0 <= i < (a + b).len() implies (a + b)[i] != '\r' by {
        if i >= a.len() {
            assert((a + b)[i] == b[i - a.len()]);
        }
    }
}

proof fn lemma_comma_prefixed_no_cr(items: Seq<String>)
    requires
        forall|i: int| 0 <= i < items.len() ==> has_no_cr(#[trigger] items[i]@),
    ensures
        has_no_cr(comma_prefixed(items)),
    decreases items.len(),
{
    if items.len() > 0 {
        reveal_strlit(", ");
        lemma_comma_prefixed_no_cr(items.drop_last());
        lemma_concat_no_cr(comma_prefixed(items.drop_last()), ", "@);
        lemma_concat_no_cr(comma_prefixed(items.drop_last()) + ", "@, items.last()@);
    }
}

/// Carriage returns are stripped from the doc text: where the ticket's other
/// texts hold none, the rendered note holds none.
pub proof fn lemma_note_has_no_cr(t: AbstractTicket, variant: DocumentVariant)
    requires
        has_no_cr(t.id.key@),
        has_no_cr(t.url@),
        has_no_cr(t.summary@),
        has_no_cr(t.docs_contact@),
        forall|i: int| 0 <= i < t.references@.len() ==> has_no_cr(#[trigger] t.references@[i]@),
    ensures
        has_no_cr(without_cr(t.doc_text@)),
        has_no_cr(spec_release_note(t, variant)),
{
    reveal_strlit("link:");
    reveal_strlit("[");
    reveal_strlit("]");
    reveal_strlit("(");
    reveal_strlit(")");
    reveal_strlit(" ");
    reveal_strlit("\n");
    reveal_strlit("\n\n");
    reveal_strlit("[id=\"");
    reveal_strlit("-");
    reveal_strlit("\"]");
    reveal_strlit("BZ");
    reveal_strlit("Jira");
    reveal_strlit("| ");
    reveal_strlit(" | ");
    reveal_strlit(" | link:");
    reveal_strlit("[]");
    reveal_strlit("No docs contact");
    reveal_strlit("RDT+");
    reveal_strlit("RDT?");
    reveal_strlit("RDT-");
    reveal_strlit("\n.\u{1f6a7} ");
    reveal_strlit(" \n\n**No release note.**");
    let d = without_cr(t.doc_text@);
    let pred = |c: char| c != '\r';
    assert forall|i: int| 0 <= i < d.len() implies d[i] != '\r' by {
        t.doc_text@.lemma_filter_pred(pred, i);
    }
    let sig = spec_signature(t);
    if t.public {
        lemma_concat_no_cr("link:"@, t.url@);
        lemma_concat_no_cr("link:"@ + t.url@, "["@);
        lemma_concat_no_cr("link:"@ + t.url@ + "["@, t.id.key@);
        lemma_concat_no_cr("link:"@ + t.url@ + "["@ + t.id.key@, "]"@);
    }
    lemma_comma_prefixed_no_cr(t.references@);
    lemma_concat_no_cr("("@, sig);
    lemma_concat_no_cr("("@ + sig, comma_prefixed(t.references@));
    lemma_concat_no_cr("("@ + sig + comma_prefixed(t.references@), ")"@);
    let short = tracker_short_name(t.id.tracker);
    lemma_concat_no_cr("[id=\""@, short);
    lemma_concat_no_cr("[id=\""@ + short, "-"@);
    lemma_concat_no_cr("[id=\""@ + short + "-"@, t.id.key@);
    lemma_concat_no_cr("[id=\""@ + short + "-"@ + t.id.key@, "\"]"@);
    let contact = contact_or_placeholder(t);
    let status = status_short_form(t.doc_text_status);
    lemma_concat_no_cr("| "@, contact);
    lemma_concat_no_cr("| "@ + contact, " | "@);
    lemma_concat_no_cr("| "@ + contact + " | "@, status);
    lemma_concat_no_cr("| "@ + contact + " | "@ + status, " | link:"@);
    lemma_concat_no_cr("| "@ + contact + " | "@ + status + " | link:"@, t.url@);
    lemma_concat_no_cr("| "@ + contact + " | "@ + status + " | link:"@ + t.url@, "[]"@);
    let anchor = spec_anchor(t);
    let debug = spec_debug_line(t);
    lemma_concat_no_cr(anchor, "\n.\u{1f6a7} "@);
    lemma_concat_no_cr(anchor + "\n.\u{1f6a7} "@, t.summary@);
    lemma_concat_no_cr(anchor + "\n.\u{1f6a7} "@ + t.summary@, " "@);
    lemma_concat_no_cr(anchor + "\n.\u{1f6a7} "@ + t.summary@ + " "@, debug);
    lemma_concat_no_cr(
        anchor + "\n.\u{1f6a7} "@ + t.summary@ + " "@ + debug,
        " \n\n**No release note.**"@,
    );
    let all = spec_all_signatures(t);
    lemma_concat_no_cr(anchor, "\n"@);
    lemma_concat_no_cr(anchor + "\n"@, d);
    lemma_concat_no_cr(anchor + "\n"@ + d, "\n\n"@);
    lemma_concat_no_cr(anchor + "\n"@ + d + "\n\n"@, all);
    lemma_concat_no_cr(anchor + "\n"@ + d + "\n\n"@ + all, " "@);
    lemma_concat_no_cr(spec_note_body(t), debug);
}

} // verus!
