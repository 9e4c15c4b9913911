//! Extraction of the canonical ticket fields from the raw records of each
//! tracker.

use vstd::prelude::*;

use crate::json::JsonValue;

verus! {

/// How far the release note of a ticket has come.
#[derive(Clone, Copy, Debug, PartialEq, Eq, Structural)]
pub enum DocTextStatus {
    Approved,
    InProgress,
    NoDocumentation,
}

/// The status that a flag value stands for: `+` is approved, `?` in
/// progress, anything else no documentation.
pub open spec fn status_of_flag(flag: Seq<char>) -> DocTextStatus {
    if flag == seq!['+'] {
        DocTextStatus::Approved
    } else if flag == seq!['?'] {
        DocTextStatus::InProgress
    } else {
        DocTextStatus::NoDocumentation
    }
}

/// The short form of a status shown in the debug line of a note.
pub open spec fn status_short_form(status: DocTextStatus) -> Seq<char> {
    match status {
        DocTextStatus::Approved => "RDT+"@,
        DocTextStatus::InProgress => "RDT?"@,
        DocTextStatus::NoDocumentation => "RDT-"@,
    }
}

impl DocTextStatus {
    /// Reads the status from the value of the tracker's flag.
    pub fn from_flag(flag: &str) -> (r: DocTextStatus)
        ensures
            r == status_of_flag(flag@),
    {
        if flag.unicode_len() == 1 {
            let c = flag.get_char(0);
            if c == '+' {
                assert(flag@ =~= seq!['+']);
                DocTextStatus::Approved
            } else if c == '?' {
                assert(flag@ =~= seq!['?']);
                DocTextStatus::InProgress
            } else {
                DocTextStatus::NoDocumentation
            }
        } else {
            DocTextStatus::NoDocumentation
        }
    }

    /// The short form shown in debug lines: `RDT+`, `RDT?` or `RDT-`.
    pub fn short_form(&self) -> (r: &'static str)
        ensures
            r@ == status_short_form(*self),
    {
        match self {
            DocTextStatus::Approved => "RDT+",
            DocTextStatus::InProgress => "RDT?",
            DocTextStatus::NoDocumentation => "RDT-",
        }
    }
}

/// Which raw field of one tracker's records holds each canonical value.
pub struct Fields {
    pub doc_type: String,
    pub doc_text: String,
    pub target_release: String,
    pub subsystems: String,
    pub doc_text_status: String,
    pub docs_contact: String,
}

/// The field mappings of both trackers.
pub struct Config {
    pub bugzilla: Fields,
    pub jira: Fields,
}

/// A raw record that breaks the shape its tracker's schema promises.
#[derive(Clone, Debug)]
pub enum ExtractError {
    /// A required field is absent; it carries the field's name.
    MissingField(String),
    /// A field is present but shaped otherwise than expected; it carries the
    /// field's name.
    UnexpectedStructure(String),
}

/// A flag of a Bugzilla bug.
pub struct BugFlag {
    pub name: String,
    pub status: String,
}

/// A raw Bugzilla bug: its custom fields stay in `extra`, a JSON object.
pub struct BugRecord {
    pub key: String,
    pub url: String,
    pub summary: String,
    pub public: bool,
    pub docs_contact: Option<String>,
    pub components: Vec<String>,
    pub flags: Vec<BugFlag>,
    pub extra: JsonValue,
}

/// A raw Jira issue: its custom fields stay in `extra`, a JSON object whose
/// values are themselves objects.
pub struct IssueRecord {
    pub key: String,
    pub url: String,
    pub summary: String,
    pub public: bool,
    /// The names of the issue's fix versions, in order.
    pub fix_versions: Vec<String>,
    pub components: Vec<String>,
    pub extra: JsonValue,
}

/// The text of an optional string.
pub open spec fn opt_view(o: Option<String>) -> Option<Seq<char>> {
    match o {
        Some(s) => Some(s@),
        None => None,
    }
}

/// The texts of a sequence of strings.
pub open spec fn string_views(v: Seq<String>) -> Seq<Seq<char>> {
    v.map_values(|s: String| s@)
}

/// The text of an optional string, or an error.
pub open spec fn res_opt_view(r: Result<Option<String>, ExtractError>) -> Result<
    Option<Seq<char>>,
    ExtractError,
> {
    match r {
        Ok(o) => Ok(opt_view(o)),
        Err(e) => Err(e),
    }
}

/// The string under `key` of a JSON value, if it is one.
pub open spec fn str_member(v: JsonValue, key: Seq<char>) -> Option<Seq<char>> {
    match v.spec_get(key) {
        Some(m) => m.spec_str(),
        None => None,
    }
}

/// The status of the first flag named `name`, if any.
pub open spec fn flag_status(flags: Seq<BugFlag>, name: Seq<char>) -> Option<Seq<char>>
    decreases flags.len(),
{
    if flags.len() == 0 {
        None
    } else {
        let earlier = flag_status(flags.drop_last(), name);
        if earlier is Some {
            earlier
        } else if flags.last().name@ == name {
            Some(flags.last().status@)
        } else {
            None
        }
    }
}

/// The status that a flag, present or not, stands for.
pub open spec fn status_of_optional_flag(flag: Option<Seq<char>>) -> DocTextStatus {
    match flag {
        Some(f) => status_of_flag(f),
        None => DocTextStatus::NoDocumentation,
    }
}

/// The subsystems of a bug: the name of the team in its pool field.
pub open spec fn spec_bug_subsystems(b: BugRecord, config: Fields) -> Result<
    Seq<Seq<char>>,
    ExtractError,
> {
    match b.extra.spec_get(config.subsystems@) {
        None => Err(ExtractError::MissingField(config.subsystems)),
        Some(pool) => match pool.spec_get("team"@) {
            Some(team) => match str_member(team, "name"@) {
                Some(name) => Ok(seq![name]),
                None => Err(ExtractError::UnexpectedStructure(config.subsystems)),
            },
            None => Err(ExtractError::UnexpectedStructure(config.subsystems)),
        },
    }
}

/// The doc type of an issue: the `value` of its doc type field, where present.
pub open spec fn spec_issue_doc_type(i: IssueRecord, config: Fields) -> Result<
    Option<Seq<char>>,
    ExtractError,
> {
    match i.extra.spec_get(config.doc_type@) {
        None => Ok(None),
        Some(field) => match str_member(field, "value"@) {
            Some(s) => Ok(Some(s)),
            None => Err(ExtractError::UnexpectedStructure(config.doc_type)),
        },
    }
}

/// The doc text of an issue: its doc text field, which must be a string where
/// present.
pub open spec fn spec_issue_doc_text(i: IssueRecord, config: Fields) -> Result<
    Option<Seq<char>>,
    ExtractError,
> {
    match i.extra.spec_get(config.doc_text@) {
        None => Ok(None),
        Some(field) => match field.spec_str() {
            Some(s) => Ok(Some(s)),
            None => Err(ExtractError::UnexpectedStructure(config.doc_text)),
        },
    }
}

/// The `value` of each entry of a list, or `None` where one has none.
pub open spec fn entry_values(entries: Seq<JsonValue>) -> Option<Seq<Seq<char>>>
    decreases entries.len(),
{
    if entries.len() == 0 {
        Some(Seq::empty())
    } else {
        match (entry_values(entries.drop_last()), str_member(entries.last(), "value"@)) {
            (Some(earlier), Some(v)) => Some(earlier.push(v)),
            _ => None,
        }
    }
}

/// The subsystems of an issue: the `value` of each entry of its subsystem list.
pub open spec fn spec_issue_subsystems(i: IssueRecord, config: Fields) -> Result<
    Seq<Seq<char>>,
    ExtractError,
> {
    match i.extra.spec_get(config.subsystems@) {
        None => Err(ExtractError::MissingField(config.subsystems)),
        Some(JsonValue::Array(entries)) => match entry_values(entries@) {
            Some(values) => Ok(values),
            None => Err(ExtractError::UnexpectedStructure(config.subsystems)),
        },
        Some(_) => Err(ExtractError::UnexpectedStructure(config.subsystems)),
    }
}

/// The status flag of an issue: the `value` of its status field, where present.
pub open spec fn spec_issue_flag(i: IssueRecord, config: Fields) -> Option<Seq<char>> {
    match i.extra.spec_get(config.doc_text_status@) {
        Some(field) => str_member(field, "value"@),
        None => None,
    }
}

/// The docs contact of an issue: the `emailAddress` of its contact field.
pub open spec fn spec_issue_docs_contact(i: IssueRecord, config: Fields) -> Result<
    Option<Seq<char>>,
    ExtractError,
> {
    match i.extra.spec_get(config.docs_contact@) {
        None => Ok(None),
        Some(field) => match field.spec_get("emailAddress"@) {
            None => Ok(None),
            Some(address) => match address.spec_str() {
                Some(s) => Ok(Some(s)),
                None => Err(ExtractError::UnexpectedStructure(config.docs_contact)),
            },
        },
    }
}

/// The canonical values that a tracker's records offer.
pub trait ExtraFields {
    /// Extracts the doc type.
    fn doc_type(&self, config: &Fields) -> Result<Option<String>, ExtractError>;

    /// Extracts the doc text.
    fn doc_text(&self, config: &Fields) -> Result<Option<String>, ExtractError>;

    /// Extracts the target release.
    fn target_release(&self, config: &Fields) -> Option<String>;

    /// Extracts the subsystems.
    fn subsystems(&self, config: &Fields) -> Result<Vec<String>, ExtractError>;

    /// Extracts the doc text status.
    fn doc_text_status(&self, config: &Fields) -> DocTextStatus;

    /// Extracts the docs contact.
    fn docs_contact(&self, config: &Fields) -> Result<Option<String>, ExtractError>;
}

/// A copy of an optional string.
fn copy_opt(o: Option<&String>) -> (r: Option<String>)
    ensures
        r is Some <==> o is Some,
        r is Some ==> r->0@ == o->0@,
{
    match o {
        Some(s) => Some(s.clone()),
        None => None,
    }
}

/// The string under `key` of a JSON value, if it is one.
fn get_str<'a>(v: &'a JsonValue, key: &String) -> (r: Option<&'a String>)
    ensures
        r is Some <==> str_member(*v, key@) is Some,
        r is Some ==> r->0@ == str_member(*v, key@)->0,
{
    match v.get(key) {
        Some(m) => m.as_str(),
        None => None,
    }
}

/// A copy of a list of strings.
pub(crate) fn copy_strings(v: &Vec<String>) -> (r: Vec<String>)
    ensures
        string_views(r@) == string_views(v@),
{
    let mut out: Vec<String> = Vec::new();
    let mut i: usize = 0;
    while i < v.len()
        invariant
            i <= v@.len(),
            out@.len() == i,
            forall|j: int| 0 <= j < i ==> (#[trigger] out@[j])@ == v@[j]@,
        decreases v@.len() - i,
    {
        out.push(v[i].clone());
        i = i + 1;
    }
    assert(string_views(out@) =~= string_views(v@));
    out
}

impl BugRecord {
    /// Whether the bug lacks the doc text status flag entirely, in which case
    /// its status falls back to no documentation and a warning is due.
    pub fn lacks_status_flag(&self, config: &Fields) -> (r: bool)
        ensures
            r == (flag_status(self.flags@, config.doc_text_status@) is None),
    {
        let mut i: usize = 0;
        while i < self.flags.len()
            invariant
                i <= self.flags@.len(),
                flag_status(self.flags@.take(i as int), config.doc_text_status@) is None,
            decreases self.flags@.len() - i,
        {
            assert(self.flags@.take(i + 1).drop_last() =~= self.flags@.take(i as int));
            if self.flags[i].name == config.doc_text_status {
                proof {
                    lemma_flag_status_found_extends(
                        self.flags@.take(i + 1),
                        self.flags@.subrange(i + 1, self.flags@.len() as int),
                        config.doc_text_status@,
                    );
                    assert(self.flags@.take(i + 1) + self.flags@.subrange(
                        i + 1,
                        self.flags@.len() as int,
                    ) =~= self.flags@);
                }
                return false;
            }
            i = i + 1;
        }
        assert(self.flags@.take(i as int) =~= self.flags@);
        true
    }
}

/// Once a flag is found, adding flags does not lose it.
proof fn lemma_flag_status_found_extends(flags: Seq<BugFlag>, more: Seq<BugFlag>, name: Seq<char>)
    requires
        flag_status(flags, name) is Some,
    ensures
        flag_status(flags + more, name) is Some,
    decreases more.len(),
{
    if more.len() > 0 {
        lemma_flag_status_found_extends(flags, more.drop_last(), name);
        assert((flags + more).drop_last() =~= flags + more.drop_last());
    } else {
        assert(flags + more =~= flags);
    }
}

impl ExtraFields for BugRecord {
    fn doc_type(&self, config: &Fields) -> (r: Result<Option<String>, ExtractError>)
        ensures
            res_opt_view(r) == Ok::<Option<Seq<char>>, ExtractError>(
                str_member(self.extra, config.doc_type@),
            ),
    {
        Ok(copy_opt(get_str(&self.extra, &config.doc_type)))
    }

    fn doc_text(&self, config: &Fields) -> (r: Result<Option<String>, ExtractError>)
        ensures
            res_opt_view(r) == Ok::<Option<Seq<char>>, ExtractError>(
                str_member(self.extra, config.doc_text@),
            ),
    {
        Ok(copy_opt(get_str(&self.extra, &config.doc_text)))
    }

    fn target_release(&self, config: &Fields) -> (r: Option<String>)
        ensures
            opt_view(r) == str_member(self.extra, config.target_release@),
    {
        copy_opt(get_str(&self.extra, &config.target_release))
    }

    fn subsystems(&self, config: &Fields) -> (r: Result<Vec<String>, ExtractError>)
        ensures
            match r {
                Ok(v) => spec_bug_subsystems(*self, *config) == Ok::<
                    Seq<Seq<char>>,
                    ExtractError,
                >(string_views(v@)),
                Err(e) => spec_bug_subsystems(*self, *config) == Err::<
                    Seq<Seq<char>>,
                    ExtractError,
                >(e),
            },
    {
        let pool = match self.extra.get(&config.subsystems) {
            Some(pool) => pool,
            None => {
                return Err(ExtractError::MissingField(config.subsystems.clone()));
            },
        };
        let team_key = String::from_str("team");
        let name_key = String::from_str("name");
        match pool.get(&team_key) {
            Some(team) => match get_str(team, &name_key) {
                Some(name) => {
                    let mut v: Vec<String> = Vec::new();
                    v.push(name.clone());
                    assert(string_views(v@) =~= seq![name@]);
                    Ok(v)
                },
                None => Err(ExtractError::UnexpectedStructure(config.subsystems.clone())),
            },
            None => Err(ExtractError::UnexpectedStructure(config.subsystems.clone())),
        }
    }

    fn doc_text_status(&self, config: &Fields) -> (r: DocTextStatus)
        ensures
            r == status_of_optional_flag(flag_status(self.flags@, config.doc_text_status@)),
    {
        let mut found: Option<&String> = None;
        let mut i: usize = 0;
        while i < self.flags.len()
            invariant
                i <= self.flags@.len(),
                found is Some <==> flag_status(self.flags@.take(i as int), config.doc_text_status@)
                    is Some,
                found is Some ==> found->0@ == flag_status(
                    self.flags@.take(i as int),
                    config.doc_text_status@,
                )->0,
            decreases self.flags@.len() - i,
        {
            assert(self.flags@.take(i + 1).drop_last() =~= self.flags@.take(i as int));
            if found.is_none() && self.flags[i].name == config.doc_text_status {
                found = Some(&self.flags[i].status);
            }
            i = i + 1;
        }
        assert(self.flags@.take(i as int) =~= self.flags@);
        match found {
            Some(flag) => DocTextStatus::from_flag(flag.as_str()),
            None => DocTextStatus::NoDocumentation,
        }
    }

    fn docs_contact(&self, config: &Fields) -> (r: Result<Option<String>, ExtractError>)
        ensures
            res_opt_view(r) == Ok::<Option<Seq<char>>, ExtractError>(opt_view(self.docs_contact)),
    {
        Ok(copy_opt(self.docs_contact.as_ref()))
    }
}

impl ExtraFields for IssueRecord {
    fn doc_type(&self, config: &Fields) -> (r: Result<Option<String>, ExtractError>)
        ensures
            res_opt_view(r) == spec_issue_doc_type(*self, *config),
    {
        match self.extra.get(&config.doc_type) {
            None => Ok(None),
            Some(field) => {
                let value_key = String::from_str("value");
                match get_str(field, &value_key) {
                    Some(s) => Ok(Some(s.clone())),
                    None => Err(ExtractError::UnexpectedStructure(config.doc_type.clone())),
                }
            },
        }
    }

    fn doc_text(&self, config: &Fields) -> (r: Result<Option<String>, ExtractError>)
        ensures
            res_opt_view(r) == spec_issue_doc_text(*self, *config),
    {
        match self.extra.get(&config.doc_text) {
            None => Ok(None),
            Some(field) => match field.as_str() {
                Some(s) => Ok(Some(s.clone())),
                None => Err(ExtractError::UnexpectedStructure(config.doc_text.clone())),
            },
        }
    }

    fn target_release(&self, config: &Fields) -> (r: Option<String>)
        ensures
            opt_view(r) == (if self.fix_versions@.len() > 0 {
                Some(self.fix_versions@[0]@)
            } else {
                None
            }),
    {
        if self.fix_versions.len() > 0 {
            Some(self.fix_versions[0].clone())
        } else {
            None
        }
    }

    fn subsystems(&self, config: &Fields) -> (r: Result<Vec<String>, ExtractError>)
        ensures
            match r {
                Ok(v) => spec_issue_subsystems(*self, *config) == Ok::<
                    Seq<Seq<char>>,
                    ExtractError,
                >(string_views(v@)),
                Err(e) => spec_issue_subsystems(*self, *config) == Err::<
                    Seq<Seq<char>>,
                    ExtractError,
                >(e),
            },
    {
        let entries = match self.extra.get(&config.subsystems) {
            None => {
                return Err(ExtractError::MissingField(config.subsystems.clone()));
            },
            Some(JsonValue::Array(entries)) => entries,
            Some(_) => {
                return Err(ExtractError::UnexpectedStructure(config.subsystems.clone()));
            },
        };
        let value_key = String::from_str("value");
        let mut values: Vec<String> = Vec::new();
        let mut i: usize = 0;
        while i < entries.len()
            invariant
                i <= entries@.len(),
                value_key@ == "value"@,
                self.extra.spec_get(config.subsystems@) == Some(JsonValue::Array(*entries)),
                entry_values(entries@.take(i as int)) == Some(string_views(values@)),
            decreases entries@.len() - i,
        {
            assert(entries@.take(i + 1).drop_last() =~= entries@.take(i as int));
            match get_str(&entries[i], &value_key) {
                Some(s) => {
                    let ghost before = values@;
                    values.push(s.clone());
                    assert(string_views(values@) =~= string_views(before).push(s@));
                },
                None => {
                    proof {
                        assert(entries@.take(i + 1).last() == entries@[i as int]);
                        assert(entry_values(entries@.take(i + 1)) is None);
                        let rest = entries@.subrange(i + 1, entries@.len() as int);
                        lemma_entry_values_none_extends(entries@.take(i + 1), rest);
                        assert(entries@.take(i + 1) + rest =~= entries@);
                    }
                    return Err(ExtractError::UnexpectedStructure(config.subsystems.clone()));
                },
            }
            i = i + 1;
        }
        assert(entries@.take(i as int) =~= entries@);
        Ok(values)
    }

    fn doc_text_status(&self, config: &Fields) -> (r: DocTextStatus)
        ensures
            r == status_of_optional_flag(spec_issue_flag(*self, *config)),
    {
        let value_key = String::from_str("value");
        match self.extra.get(&config.doc_text_status) {
            Some(field) => match get_str(field, &value_key) {
                Some(flag) => DocTextStatus::from_flag(flag.as_str()),
                None => DocTextStatus::NoDocumentation,
            },
            None => DocTextStatus::NoDocumentation,
        }
    }

    fn docs_contact(&self, config: &Fields) -> (r: Result<Option<String>, ExtractError>)
        ensures
            res_opt_view(r) == spec_issue_docs_contact(*self, *config),
    {
        let address_key = String::from_str("emailAddress");
        match self.extra.get(&config.docs_contact) {
            None => Ok(None),
            Some(field) => match field.get(&address_key) {
                None => Ok(None),
                Some(address) => match address.as_str() {
                    Some(s) => Ok(Some(s.clone())),
                    None => Err(ExtractError::UnexpectedStructure(config.docs_contact.clone())),
                },
            },
        }
    }
}

/// Once an entry lacks a value, every longer list of entries lacks one too.
proof fn lemma_entry_values_none_extends(entries: Seq<JsonValue>, more: Seq<JsonValue>)
    requires
        entry_values(entries) is None,
    ensures
        entry_values(entries + more) is None,
    decreases more.len(),
{
    if more.len() > 0 {
        lemma_entry_values_none_extends(entries, more.drop_last());
        assert((entries + more).drop_last() =~= entries + more.drop_last());
    } else {
        assert(entries + more =~= entries);
    }
}

/// The flag `+` gives an approved status and `?` one in progress, for the
/// records of either tracker; any other value, or no flag, gives no
/// documentation.
pub proof fn lemma_status_extraction(bug: BugRecord, issue: IssueRecord, config: Fields)
    ensures
        flag_status(bug.flags@, config.doc_text_status@) == Some(seq!['+'])
            ==> status_of_optional_flag(flag_status(bug.flags@, config.doc_text_status@))
            == DocTextStatus::Approved,
        flag_status(bug.flags@, config.doc_text_status@) == Some(seq!['?'])
            ==> status_of_optional_flag(flag_status(bug.flags@, config.doc_text_status@))
            == DocTextStatus::InProgress,
        flag_status(bug.flags@, config.doc_text_status@) != Some(seq!['+'])
            && flag_status(bug.flags@, config.doc_text_status@) != Some(seq!['?'])
            ==> status_of_optional_flag(flag_status(bug.flags@, config.doc_text_status@))
            == DocTextStatus::NoDocumentation,
        spec_issue_flag(issue, config) == Some(seq!['+']) ==> status_of_optional_flag(
            spec_issue_flag(issue, config),
        ) == DocTextStatus::Approved,
        spec_issue_flag(issue, config) == Some(seq!['?']) ==> status_of_optional_flag(
            spec_issue_flag(issue, config),
        ) == DocTextStatus::InProgress,
        spec_issue_flag(issue, config) != Some(seq!['+']) && spec_issue_flag(issue, config) != Some(
            seq!['?'],
        ) ==> status_of_optional_flag(spec_issue_flag(issue, config))
            == DocTextStatus::NoDocumentation,
{
    assert(seq!['?'] != seq!['+']) by {
        assert(seq!['?'][0] != seq!['+'][0]);
    }
}

} // verus!
