//! The document template: chapters with filters, and the rendering of a
//! whole document from a ticket set.

use vstd::prelude::*;

use crate::note::spec_release_note;
use crate::ticket::AbstractTicket;

verus! {

/// Which readers a document is for: the internal variant adds a debug line
/// to each note.
#[derive(Clone, Copy, Debug, PartialEq, Eq, Structural)]
pub enum DocumentVariant {
    Internal,
    Public,
}

/// The declarative layout of a document.
pub struct Template {
    /// The top-level sections, rendered in order.
    pub chapters: Vec<Section>,
    /// A second list of sections, reserved and not rendered.
    pub sections: Option<Vec<Section>>,
}

/// A titled part of the document that collects the tickets its filter admits.
pub struct Section {
    pub title: String,
    pub filter: Filter,
    /// Nested sections; rendering a section does not descend into them.
    pub sections: Option<Vec<Section>>,
}

/// Which tickets a section admits. An absent list admits every ticket; a
/// present one admits the tickets whose value it holds.
pub struct Filter {
    pub doc_type: Option<Vec<String>>,
    pub subsystem: Option<Vec<String>>,
    pub component: Option<Vec<String>>,
}

/// Whether some string of `v` has the text `s`.
pub open spec fn holds_text(v: Seq<String>, s: Seq<char>) -> bool {
    exists|i: int| 0 <= i < v.len() && (#[trigger] v[i])@ == s
}

/// Whether a present list admits a value; an absent one admits all.
pub open spec fn admits(list: Option<Vec<String>>, value: Seq<char>) -> bool {
    match list {
        Some(v) => holds_text(v@, value),
        None => true,
    }
}

/// Whether the ticket has every value that the filter constrains: a doc type,
/// a first subsystem, a first component.
pub open spec fn ticket_fits(f: Filter, t: AbstractTicket) -> bool {
    &&& f.doc_type is Some ==> t.doc_type is Some
    &&& f.subsystem is Some ==> t.subsystems@.len() > 0
    &&& f.component is Some ==> t.components@.len() > 0
}

/// Whether the filter admits the ticket: its doc type, its first subsystem
/// and its first component each stand in the list that constrains them.
pub open spec fn spec_matches(f: Filter, t: AbstractTicket) -> bool {
    &&& admits(f.doc_type, t.doc_type->0@)
    &&& admits(f.subsystem, t.subsystems@[0]@)
    &&& admits(f.component, t.components@[0]@)
}

/// The items joined, with `sep` between each two.
pub open spec fn joined(items: Seq<Seq<char>>, sep: Seq<char>) -> Seq<char>
    decreases items.len(),
{
    if items.len() == 0 {
        Seq::empty()
    } else if items.len() == 1 {
        items[0]
    } else {
        joined(items.drop_last(), sep) + sep + items.last()
    }
}

/// The notes of the tickets that the filter admits, in ticket order.
pub open spec fn matching_notes(
    f: Filter,
    tickets: Seq<AbstractTicket>,
    variant: DocumentVariant,
) -> Seq<Seq<char>>
    decreases tickets.len(),
{
    if tickets.len() == 0 {
        Seq::empty()
    } else {
        let earlier = matching_notes(f, tickets.drop_last(), variant);
        if spec_matches(f, tickets.last()) {
            earlier.push(spec_release_note(tickets.last(), variant))
        } else {
            earlier
        }
    }
}

/// A section: its heading, a blank line, and the matching notes separated by
/// blank lines.
pub open spec fn spec_render(s: Section, tickets: Seq<AbstractTicket>, variant: DocumentVariant) -> Seq<
    char,
> {
    "= "@ + s.title@ + "\n\n"@ + joined(matching_notes(s.filter, tickets, variant), "\n\n"@)
}

/// Whether every ticket has the values that every section constrains.
pub open spec fn sections_fit(sections: Seq<Section>, tickets: Seq<AbstractTicket>) -> bool {
    forall|i: int, j: int|
        0 <= i < sections.len() && 0 <= j < tickets.len() ==> ticket_fits(
            #[trigger] sections[i].filter,
            #[trigger] tickets[j],
        )
}

/// The rendered chapters, in order.
pub open spec fn rendered_chapters(
    chapters: Seq<Section>,
    tickets: Seq<AbstractTicket>,
    variant: DocumentVariant,
) -> Seq<Seq<char>> {
    chapters.map_values(|c: Section| spec_render(c, tickets, variant))
}

/// The whole document: the chapters separated by blank lines.
pub open spec fn spec_document(
    template: Template,
    tickets: Seq<AbstractTicket>,
    variant: DocumentVariant,
) -> Seq<char> {
    joined(rendered_chapters(template.chapters@, tickets, variant), "\n\n"@)
}

/// Whether some string of `v` equals `s`.
fn contains_string(v: &Vec<String>, s: &String) -> (r: bool)
    ensures
        r == holds_text(v@, s@),
{
    let mut i: usize = 0;
    while i < v.len()
        invariant
            i <= v@.len(),
            forall|j: int| 0 <= j < i ==> (#[trigger] v@[j])@ != s@,
        decreases v@.len() - i,
    {
        if v[i] == *s {
            return true;
        }
        i = i + 1;
    }
    false
}

/// The strings joined, with `sep` between each two.
fn join_strings(items: &Vec<String>, sep: &str) -> (r: String)
    ensures
        r@ == joined(items@.map_values(|s: String| s@), sep@),
{
    let ghost views = items@.map_values(|s: String| s@);
    let mut out = String::new();
    let mut i: usize = 0;
    while i < items.len()
        invariant
            i <= items@.len(),
            views == items@.map_values(|s: String| s@),
            out@ == joined(views.take(i as int), sep@),
        decreases items@.len() - i,
    {
        assert(views.take(i + 1).drop_last() =~= views.take(i as int));
        if i > 0 {
            out.append(sep);
        } else {
            assert(views.take(1) =~= seq![items@[0]@]);
        }
        out.append(items[i].as_str());
        i = i + 1;
    }
    assert(views.take(i as int) =~= views);
    out
}

impl Section {
    /// Whether the section's filter admits the ticket.
    fn matches_ticket(&self, ticket: &AbstractTicket) -> (r: bool)
        requires
            ticket_fits(self.filter, *ticket),
        ensures
            r == spec_matches(self.filter, *ticket),
    {
        let matches_doc_type = match &self.filter.doc_type {
            Some(dt) => match &ticket.doc_type {
                Some(d) => contains_string(dt, d),
                None => false,
            },
            None => true,
        };
        let matches_subsystem = match &self.filter.subsystem {
            Some(sst) => contains_string(sst, &ticket.subsystems[0]),
            None => true,
        };
        let matches_component = match &self.filter.component {
            Some(c) => contains_string(c, &ticket.components[0]),
            None => true,
        };
        matches_doc_type && matches_subsystem && matches_component
    }

    /// Renders the section's heading followed by the notes of the tickets it
    /// admits.
    fn render(&self, tickets: &[AbstractTicket], variant: DocumentVariant) -> (r: String)
        requires
            forall|j: int| 0 <= j < tickets@.len() ==> ticket_fits(self.filter, #[trigger] tickets@[j]),
        ensures
            r@ == spec_render(*self, tickets@, variant),
    {
        let mut notes: Vec<String> = Vec::new();
        let mut i: usize = 0;
        while i < tickets.len()
            invariant
                i <= tickets@.len(),
                forall|j: int| 0 <= j < tickets@.len() ==> ticket_fits(self.filter, #[trigger] tickets@[j]),
                notes@.map_values(|s: String| s@) == matching_notes(
                    self.filter,
                    tickets@.take(i as int),
                    variant,
                ),
            decreases tickets@.len() - i,
        {
            assert(tickets@.take(i + 1).drop_last() =~= tickets@.take(i as int));
            if self.matches_ticket(&tickets[i]) {
                let ghost before = notes@;
                notes.push(tickets[i].release_note(variant));
                assert(notes@.map_values(|s: String| s@) =~= before.map_values(|s: String| s@).push(
                    spec_release_note(tickets@[i as int], variant),
                ));
            }
            i = i + 1;
        }
        assert(tickets@.take(i as int) =~= tickets@);
        let mut out = String::from_str("= ");
        out.append(self.title.as_str());
        out.append("\n\n");
        let body = join_strings(&notes, "\n\n");
        out.append(body.as_str());
        out
    }
}

/// Whether every ticket has the values that the template's chapters filter
/// on, so that the document can be formatted.
pub fn can_format(tickets: &[AbstractTicket], template: &Template) -> (r: bool)
    ensures
        r == sections_fit(template.chapters@, tickets@),
{
    let mut i: usize = 0;
    while i < template.chapters.len()
        invariant
            i <= template.chapters@.len(),
            forall|a: int, b: int|
                0 <= a < i && 0 <= b < tickets@.len() ==> ticket_fits(
                    #[trigger] template.chapters@[a].filter,
                    #[trigger] tickets@[b],
                ),
        decreases template.chapters@.len() - i,
    {
        let filter = &template.chapters[i].filter;
        let mut j: usize = 0;
        while j < tickets.len()
            invariant
                i < template.chapters@.len(),
                j <= tickets@.len(),
                *filter == template.chapters@[i as int].filter,
                forall|a: int, b: int|
                    0 <= a < i && 0 <= b < tickets@.len() ==> ticket_fits(
                        #[trigger] template.chapters@[a].filter,
                        #[trigger] tickets@[b],
                    ),
                forall|b: int| 0 <= b < j ==> ticket_fits(*filter, #[trigger] tickets@[b]),
            decreases tickets@.len() - j,
        {
            let t = &tickets[j];
            let fits = (filter.doc_type.is_none() || t.doc_type.is_some()) && (
            filter.subsystem.is_none() || t.subsystems.len() > 0) && (filter.component.is_none()
                || t.components.len() > 0);
            if !fits {
                return false;
            }
            j = j + 1;
        }
        i = i + 1;
    }
    true
}

/// Renders every chapter of the template and joins them with blank lines.
pub fn format_document(
    tickets: &[AbstractTicket],
    template: &Template,
    variant: DocumentVariant,
) -> (r: String)
    requires
        sections_fit(template.chapters@, tickets@),
    ensures
        r@ == spec_document(*template, tickets@, variant),
{
    let mut chapters: Vec<String> = Vec::new();
    let mut i: usize = 0;
    while i < template.chapters.len()
        invariant
            i <= template.chapters@.len(),
            sections_fit(template.chapters@, tickets@),
            chapters@.map_values(|s: String| s@) =~= rendered_chapters(
                template.chapters@.take(i as int),
                tickets@,
                variant,
            ),
        decreases template.chapters@.len() - i,
    {
        let chapter = &template.chapters[i];
        assert forall|j: int| 0 <= j < tickets@.len() implies ticket_fits(
            chapter.filter,
            #[trigger] tickets@[j],
        ) by {
            assert(ticket_fits(template.chapters@[i as int].filter, tickets@[j]));
        }
        let ghost before = chapters@;
        chapters.push(chapter.render(tickets, variant));
        assert(template.chapters@.take(i + 1) =~= template.chapters@.take(i as int).push(*chapter));
        assert(chapters@.map_values(|s: String| s@) =~= before.map_values(|s: String| s@).push(
            spec_render(*chapter, tickets@, variant),
        ));
        i = i + 1;
    }
    assert(template.chapters@.take(i as int) =~= template.chapters@);
    join_strings(&chapters, "\n\n")
}

/// A filter that constrains only the doc type, to one value, admits exactly
/// the tickets of that doc type; a filter that constrains nothing admits
/// every ticket.
pub proof fn lemma_filter_membership(f: Filter, t: AbstractTicket)
    ensures
        f.doc_type is Some && f.doc_type->0@.len() == 1 && f.subsystem is None && f.component is None
            && t.doc_type is Some ==> (spec_matches(f, t) <==> t.doc_type->0@ == f.doc_type->0@[0]@),
        f.doc_type is None && f.subsystem is None && f.component is None ==> spec_matches(f, t),
{
    if f.doc_type is Some && f.doc_type->0@.len() == 1 && t.doc_type is Some {
        if t.doc_type->0@ == f.doc_type->0@[0]@ {
            assert(holds_text(f.doc_type->0@, t.doc_type->0@));
        }
    }
}

} // verus!
