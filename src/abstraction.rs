//! Conversion of raw tracker records into canonical tickets.

use vstd::prelude::*;

use crate::extra_fields::{
    copy_strings, flag_status, opt_view, spec_bug_subsystems, spec_issue_doc_text,
    spec_issue_doc_type, spec_issue_docs_contact, spec_issue_flag, spec_issue_subsystems,
    status_of_optional_flag, str_member, string_views, BugRecord, ExtraFields, ExtractError, Fields,
    IssueRecord,
};
use crate::ticket::{AbstractTicket, TicketId, Tracker};

verus! {

/// An optional text, or the empty text.
pub open spec fn text_or_empty(o: Option<Seq<char>>) -> Seq<char> {
    match o {
        Some(s) => s,
        None => Seq::empty(),
    }
}

/// The fields that every canonical ticket takes from its record directly.
pub open spec fn common_fields(
    t: AbstractTicket,
    tracker: Tracker,
    key: String,
    public: bool,
    url: String,
    summary: String,
    components: Seq<String>,
    references: Seq<String>,
) -> bool {
    &&& t.id.tracker == tracker
    &&& t.id.key@ == key@
    &&& t.public == public
    &&& t.url@ == url@
    &&& t.summary@ == summary@
    &&& string_views(t.components@) == string_views(components)
    &&& string_views(t.references@) == string_views(references)
}

/// Whether `t` is the canonical form of bug `b` under `config`, with the
/// given reference signatures.
pub open spec fn is_bug_ticket(
    t: AbstractTicket,
    b: BugRecord,
    config: Fields,
    references: Seq<String>,
) -> bool {
    &&& common_fields(
        t,
        Tracker::Bugzilla,
        b.key,
        b.public,
        b.url,
        b.summary,
        b.components@,
        references,
    )
    &&& opt_view(t.doc_type) == str_member(b.extra, config.doc_type@)
    &&& t.doc_text@ == text_or_empty(str_member(b.extra, config.doc_text@))
    &&& opt_view(t.target_release) == str_member(b.extra, config.target_release@)
    &&& spec_bug_subsystems(b, config) == Ok::<Seq<Seq<char>>, ExtractError>(string_views(t.subsystems@))
    &&& t.doc_text_status == status_of_optional_flag(flag_status(b.flags@, config.doc_text_status@))
    &&& t.docs_contact@ == text_or_empty(opt_view(b.docs_contact))
}

/// The first field of issue `i` that breaks its schema, if any.
pub open spec fn issue_error(i: IssueRecord, config: Fields) -> Option<ExtractError> {
    if spec_issue_doc_type(i, config) is Err {
        Some(spec_issue_doc_type(i, config)->Err_0)
    } else if spec_issue_doc_text(i, config) is Err {
        Some(spec_issue_doc_text(i, config)->Err_0)
    } else if spec_issue_subsystems(i, config) is Err {
        Some(spec_issue_subsystems(i, config)->Err_0)
    } else if spec_issue_docs_contact(i, config) is Err {
        Some(spec_issue_docs_contact(i, config)->Err_0)
    } else {
        None
    }
}

/// Whether `t` is the canonical form of issue `i` under `config`, with the
/// given reference signatures, where no field of `i` breaks its schema.
pub open spec fn is_issue_ticket(
    t: AbstractTicket,
    i: IssueRecord,
    config: Fields,
    references: Seq<String>,
) -> bool {
    &&& common_fields(
        t,
        Tracker::Jira,
        i.key,
        i.public,
        i.url,
        i.summary,
        i.components@,
        references,
    )
    &&& spec_issue_doc_type(i, config) == Ok::<Option<Seq<char>>, ExtractError>(opt_view(t.doc_type))
    &&& t.doc_text@ == text_or_empty(spec_issue_doc_text(i, config)->Ok_0)
    &&& opt_view(t.target_release) == (if i.fix_versions@.len() > 0 {
        Some(i.fix_versions@[0]@)
    } else {
        None
    })
    &&& spec_issue_subsystems(i, config) == Ok::<Seq<Seq<char>>, ExtractError>(string_views(t.subsystems@))
    &&& t.doc_text_status == status_of_optional_flag(spec_issue_flag(i, config))
    &&& t.docs_contact@ == text_or_empty(spec_issue_docs_contact(i, config)->Ok_0)
}

/// Raw records that convert into canonical tickets.
pub trait IntoAbstract {
    /// Converts the record, attaching the given reference signatures.
    fn into_abstract(&self, references: Vec<String>, config: &Fields) -> Result<
        AbstractTicket,
        ExtractError,
    >;
}

/// The text of an optional string, or an empty string.
fn unwrap_text(o: Option<String>) -> (r: String)
    ensures
        r@ == text_or_empty(opt_view(o)),
{
    match o {
        Some(s) => s,
        None => String::new(),
    }
}

impl IntoAbstract for BugRecord {
    fn into_abstract(&self, references: Vec<String>, config: &Fields) -> (r: Result<
        AbstractTicket,
        ExtractError,
    >)
        ensures
            match r {
                Ok(t) => is_bug_ticket(t, *self, *config, references@),
                Err(e) => spec_bug_subsystems(*self, *config) == Err::<
                    Seq<Seq<char>>,
                    ExtractError,
                >(e),
            },
    {
        let subsystems = match self.subsystems(config) {
            Ok(s) => s,
            Err(e) => {
                return Err(e);
            },
        };
        let doc_type = match self.doc_type(config) {
            Ok(d) => d,
            Err(e) => {
                return Err(e);
            },
        };
        let doc_text = match self.doc_text(config) {
            Ok(d) => unwrap_text(d),
            Err(e) => {
                return Err(e);
            },
        };
        let docs_contact = match self.docs_contact(config) {
            Ok(d) => unwrap_text(d),
            Err(e) => {
                return Err(e);
            },
        };
        Ok(
            AbstractTicket {
                id: TicketId { tracker: Tracker::Bugzilla, key: self.key.clone() },
                public: self.public,
                url: self.url.clone(),
                summary: self.summary.clone(),
                doc_type,
                doc_text,
                doc_text_status: self.doc_text_status(config),
                docs_contact,
                target_release: self.target_release(config),
                subsystems,
                components: copy_strings(&self.components),
                references,
            },
        )
    }
}

impl IntoAbstract for IssueRecord {
    fn into_abstract(&self, references: Vec<String>, config: &Fields) -> (r: Result<
        AbstractTicket,
        ExtractError,
    >)
        ensures
            match r {
                Ok(t) => issue_error(*self, *config) is None && is_issue_ticket(
                    t,
                    *self,
                    *config,
                    references@,
                ),
                Err(e) => issue_error(*self, *config) == Some(e),
            },
    {
        let doc_type = match self.doc_type(config) {
            Ok(d) => d,
            Err(e) => {
                return Err(e);
            },
        };
        let doc_text = match self.doc_text(config) {
            Ok(d) => unwrap_text(d),
            Err(e) => {
                return Err(e);
            },
        };
        let subsystems = match self.subsystems(config) {
            Ok(s) => s,
            Err(e) => {
                return Err(e);
            },
        };
        let docs_contact = match self.docs_contact(config) {
            Ok(d) => unwrap_text(d),
            Err(e) => {
                return Err(e);
            },
        };
        Ok(
            AbstractTicket {
                id: TicketId { tracker: Tracker::Jira, key: self.key.clone() },
                public: self.public,
                url: self.url.clone(),
                summary: self.summary.clone(),
                doc_type,
                doc_text,
                doc_text_status: self.doc_text_status(config),
                docs_contact,
                target_release: self.target_release(config),
                subsystems,
                components: copy_strings(&self.components),
                references,
            },
        )
    }
}

} // verus!
