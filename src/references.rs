//! Resolution of references between tickets into signatures.

use vstd::prelude::*;

use crate::abstraction::{issue_error, IntoAbstract};
use crate::extra_fields::{
    copy_strings, spec_bug_subsystems, string_views, BugRecord, Config, ExtractError, IssueRecord,
};
use crate::ticket::Tracker;

verus! {

/// A request for one ticket. Queries live in one list, and a query is known
/// by its index there: `references` holds the indices of the queries that
/// this one refers to, so two queries with equal contents stay distinct.
pub struct TicketQuery {
    pub tracker: Tracker,
    pub key: String,
    pub references: Vec<usize>,
}

/// All reference edges of the queries, in order, duplicates kept.
pub open spec fn flat_references(queries: Seq<TicketQuery>) -> Seq<usize>
    decreases queries.len(),
{
    if queries.len() == 0 {
        Seq::empty()
    } else {
        flat_references(queries.drop_last()) + queries.last().references@
    }
}

/// The queries that a list of ticket queries refers to.
pub struct ReferenceQueries(pub Vec<usize>);

impl ReferenceQueries {
    /// Collects the references of every query, in order, duplicates kept.
    pub fn from(queries: &[TicketQuery]) -> (r: Self)
        ensures
            r.0@ == flat_references(queries@),
    {
        let mut reference_queries: Vec<usize> = Vec::new();
        let mut i: usize = 0;
        while i < queries.len()
            invariant
                i <= queries@.len(),
                reference_queries@ == flat_references(queries@.take(i as int)),
            decreases queries@.len() - i,
        {
            assert(queries@.take(i + 1).drop_last() =~= queries@.take(i as int));
            let refs = &queries[i].references;
            let ghost before = reference_queries@;
            let mut j: usize = 0;
            while j < refs.len()
                invariant
                    j <= refs@.len(),
                    reference_queries@ == before + refs@.take(j as int),
                decreases refs@.len() - j,
            {
                reference_queries.push(refs[j]);
                j = j + 1;
                assert(reference_queries@ =~= before + refs@.take(j as int));
            }
            assert(refs@.take(j as int) =~= refs@);
            i = i + 1;
        }
        assert(queries@.take(i as int) =~= queries@);
        ReferenceQueries(reference_queries)
    }
}

/// The signature of a ticket with the given visibility, url and key.
pub open spec fn record_signature(public: bool, url: Seq<char>, key: Seq<char>) -> Seq<char> {
    if public {
        "link:"@ + url + "["@ + key + "]"@
    } else {
        key
    }
}

/// Signature lists keyed by query.
pub type SignatureEntries = Seq<(usize, Seq<Seq<char>>)>;

/// Whether no query keys two entries.
pub open spec fn keys_unique(e: SignatureEntries) -> bool {
    forall|i: int, j: int| 0 <= i < j < e.len() ==> (#[trigger] e[i]).0 != (#[trigger] e[j]).0
}

/// The entries with `sig` added to the list of query `key`: at the end of its
/// list where it has one, in a new entry at the end otherwise.
pub open spec fn insert_signature(e: SignatureEntries, key: usize, sig: Seq<char>) -> SignatureEntries {
    if exists|i: int| 0 <= i < e.len() && (#[trigger] e[i]).0 == key {
        let i = choose|i: int| 0 <= i < e.len() && (#[trigger] e[i]).0 == key;
        e.update(i, (key, e[i].1.push(sig)))
    } else {
        e.push((key, seq![sig]))
    }
}

/// The entries that pairs of query and signature make, added in order.
pub open spec fn grouped(pairs: Seq<(usize, Seq<char>)>) -> SignatureEntries
    decreases pairs.len(),
{
    if pairs.len() == 0 {
        Seq::empty()
    } else {
        insert_signature(grouped(pairs.drop_last()), pairs.last().0, pairs.last().1)
    }
}

/// The query and the signature of each reference bug.
pub open spec fn bug_pairs(bugs: Seq<(usize, BugRecord)>) -> Seq<(usize, Seq<char>)> {
    bugs.map_values(|p: (usize, BugRecord)| (p.0, record_signature(p.1.public, p.1.url@, p.1.key@)))
}

/// The query and the signature of each reference issue.
pub open spec fn issue_pairs(issues: Seq<(usize, IssueRecord)>) -> Seq<(usize, Seq<char>)> {
    issues.map_values(
        |p: (usize, IssueRecord)| (p.0, record_signature(p.1.public, p.1.url@, p.1.key@)),
    )
}

/// The error of the first bug that does not convert, if any.
pub open spec fn first_bug_error(bugs: Seq<(usize, BugRecord)>, config: crate::extra_fields::Fields) -> Option<
    ExtractError,
>
    decreases bugs.len(),
{
    if bugs.len() == 0 {
        None
    } else {
        let earlier = first_bug_error(bugs.drop_last(), config);
        if earlier is Some {
            earlier
        } else {
            match spec_bug_subsystems(bugs.last().1, config) {
                Err(e) => Some(e),
                Ok(_) => None,
            }
        }
    }
}

/// The error of the first issue that does not convert, if any.
pub open spec fn first_issue_error(
    issues: Seq<(usize, IssueRecord)>,
    config: crate::extra_fields::Fields,
) -> Option<ExtractError>
    decreases issues.len(),
{
    if issues.len() == 0 {
        None
    } else {
        let earlier = first_issue_error(issues.drop_last(), config);
        if earlier is Some {
            earlier
        } else {
            issue_error(issues.last().1, config)
        }
    }
}

/// The signatures of the entries whose query is among `refs`, entry by entry.
pub open spec fn reattached(e: SignatureEntries, refs: Seq<usize>) -> Seq<Seq<char>>
    decreases e.len(),
{
    if e.len() == 0 {
        Seq::empty()
    } else {
        reattached(e.drop_last(), refs) + if refs.contains(e.last().0) {
            e.last().1
        } else {
            Seq::empty()
        }
    }
}

/// The texts of stored entries.
pub open spec fn entry_views(e: Seq<(usize, Vec<String>)>) -> SignatureEntries {
    e.map_values(|p: (usize, Vec<String>)| (p.0, string_views(p.1@)))
}

/// Signatures of reference tickets, grouped by the query that asked for them.
pub struct ReferenceSignatures {
    entries: Vec<(usize, Vec<String>)>,
}

impl View for ReferenceSignatures {
    type V = SignatureEntries;

    closed spec fn view(&self) -> SignatureEntries {
        entry_views(self.entries@)
    }
}

/// Adds a signature to the list of its query.
fn add_signature(entries: &mut Vec<(usize, Vec<String>)>, key: usize, sig: String)
    requires
        keys_unique(entry_views(old(entries)@)),
    ensures
        keys_unique(entry_views(final(entries)@)),
        entry_views(final(entries)@) == insert_signature(entry_views(old(entries)@), key, sig@),
{
    let ghost e = entry_views(entries@);
    let mut j: usize = 0;
    while j < entries.len()
        invariant
            j <= entries@.len(),
            e == entry_views(entries@),
            e == entry_views(old(entries)@),
            keys_unique(e),
            forall|i: int| 0 <= i < j ==> (#[trigger] entries@[i]).0 != key,
        decreases entries@.len() - j,
    {
        if entries[j].0 == key {
            assert(e[j as int].0 == key);
            let ghost c = choose|i: int| 0 <= i < e.len() && (#[trigger] e[i]).0 == key;
            assert(c == j) by {
                if c < j {
                    assert(entries@[c].0 != key);
                } else if c > j {
                    assert(e[j as int].0 != e[c].0);
                }
            }
            let mut sigs = copy_strings(&entries[j].1);
            assert(e[j as int].1 == string_views(entries@[j as int].1@));
            let ghost old_sigs = sigs@;
            sigs.push(sig);
            assert(string_views(sigs@) =~= string_views(old_sigs).push(sig@));
            entries.set(j, (key, sigs));
            assert(entry_views(entries@) =~= e.update(j as int, (key, e[j as int].1.push(sig@))));
            assert(exists|i: int| 0 <= i < e.len() && (#[trigger] e[i]).0 == key);
            assert(insert_signature(e, key, sig@) == e.update(c, (key, e[c].1.push(sig@))));
            return;
        }
        j = j + 1;
    }
    assert(forall|i: int| 0 <= i < e.len() ==> (#[trigger] e[i]).0 != key) by {
        assert(forall|i: int| 0 <= i < e.len() ==> e[i].0 == (#[trigger] entries@[i]).0);
    }
    let mut sigs: Vec<String> = Vec::new();
    sigs.push(sig);
    assert(string_views(sigs@) =~= seq![sig@]);
    entries.push((key, sigs));
    assert(entry_views(entries@) =~= e.push((key, seq![sig@])));
}

impl ReferenceSignatures {
    /// Converts every reference record, bugs first and then issues, and
    /// groups their signatures by query. The first record that does not
    /// convert fails the whole batch.
    pub fn new(
        ref_bugs: Vec<(usize, BugRecord)>,
        ref_issues: Vec<(usize, IssueRecord)>,
        config: &Config,
    ) -> (r: Result<Self, ExtractError>)
        ensures
            match r {
                Ok(s) => {
                    &&& first_bug_error(ref_bugs@, config.bugzilla) is None
                    &&& first_issue_error(ref_issues@, config.jira) is None
                    &&& s@ == grouped(bug_pairs(ref_bugs@) + issue_pairs(ref_issues@))
                },
                Err(e) => match first_bug_error(ref_bugs@, config.bugzilla) {
                    Some(b) => e == b,
                    None => first_issue_error(ref_issues@, config.jira) == Some(e),
                },
            },
    {
        let mut entries: Vec<(usize, Vec<String>)> = Vec::new();
        let ghost pairs = bug_pairs(ref_bugs@) + issue_pairs(ref_issues@);
        let nb = ref_bugs.len();
        let mut i: usize = 0;
        while i < nb
            invariant
                nb == ref_bugs@.len(),
                i <= nb,
                first_bug_error(ref_bugs@.take(i as int), config.bugzilla) is None,
                keys_unique(entry_views(entries@)),
                entry_views(entries@) == grouped(pairs.take(i as int)),
                pairs == bug_pairs(ref_bugs@) + issue_pairs(ref_issues@),
            decreases nb - i,
        {
            assert(ref_bugs@.take(i + 1).drop_last() =~= ref_bugs@.take(i as int));
            assert(pairs.take(i + 1).drop_last() =~= pairs.take(i as int));
            let (query, bug) = (ref_bugs[i].0, &ref_bugs[i].1);
            match bug.into_abstract(Vec::new(), &config.bugzilla) {
                Ok(ticket) => {
                    add_signature(&mut entries, query, ticket.signature());
                },
                Err(e) => {
                    proof {
                        lemma_first_bug_error_extends(
                            ref_bugs@.take(i + 1),
                            ref_bugs@.subrange(i + 1, nb as int),
                            config.bugzilla,
                        );
                        assert(ref_bugs@.take(i + 1) + ref_bugs@.subrange(i + 1, nb as int)
                            =~= ref_bugs@);
                    }
                    return Err(e);
                },
            }
            i = i + 1;
        }
        assert(ref_bugs@.take(nb as int) =~= ref_bugs@);
        let ni = ref_issues.len();
        let mut k: usize = 0;
        while k < ni
            invariant
                nb == ref_bugs@.len(),
                ni == ref_issues@.len(),
                k <= ni,
                first_bug_error(ref_bugs@, config.bugzilla) is None,
                first_issue_error(ref_issues@.take(k as int), config.jira) is None,
                keys_unique(entry_views(entries@)),
                entry_views(entries@) == grouped(pairs.take(nb + k)),
                pairs == bug_pairs(ref_bugs@) + issue_pairs(ref_issues@),
            decreases ni - k,
        {
            assert(ref_issues@.take(k + 1).drop_last() =~= ref_issues@.take(k as int));
            assert(pairs.take(nb + k + 1).drop_last() =~= pairs.take(nb + k));
            let (query, issue) = (ref_issues[k].0, &ref_issues[k].1);
            match issue.into_abstract(Vec::new(), &config.jira) {
                Ok(ticket) => {
                    add_signature(&mut entries, query, ticket.signature());
                },
                Err(e) => {
                    proof {
                        lemma_first_issue_error_extends(
                            ref_issues@.take(k + 1),
                            ref_issues@.subrange(k + 1, ni as int),
                            config.jira,
                        );
                        assert(ref_issues@.take(k + 1) + ref_issues@.subrange(k + 1, ni as int)
                            =~= ref_issues@);
                    }
                    return Err(e);
                },
            }
            k = k + 1;
        }
        assert(ref_issues@.take(ni as int) =~= ref_issues@);
        assert(pairs.take(nb + ni) =~= pairs);
        Ok(ReferenceSignatures { entries })
    }

    /// The signatures of the references that `main_query` declares, entry by
    /// entry.
    pub fn reattach_to(&self, main_query: &TicketQuery) -> (r: Vec<String>)
        ensures
            string_views(r@) == reattached(self@, main_query.references@),
    {
        let needed = &main_query.references;
        let ghost e = entry_views(self.entries@);
        let mut out: Vec<String> = Vec::new();
        let mut i: usize = 0;
        while i < self.entries.len()
            invariant
                i <= self.entries@.len(),
                e == entry_views(self.entries@),
                string_views(out@) == reattached(e.take(i as int), needed@),
            decreases self.entries@.len() - i,
        {
            assert(e.take(i + 1).drop_last() =~= e.take(i as int));
            let key = self.entries[i].0;
            let mut found = false;
            let mut j: usize = 0;
            while j < needed.len()
                invariant
                    j <= needed@.len(),
                    found == (exists|t: int| 0 <= t < j && needed@[t] == key),
                decreases needed@.len() - j,
            {
                if needed[j] == key {
                    found = true;
                }
                j = j + 1;
            }
            assert(found == needed@.contains(key));
            if found {
                let sigs = &self.entries[i].1;
                let ghost before = out@;
                let mut m: usize = 0;
                while m < sigs.len()
                    invariant
                        m <= sigs@.len(),
                        string_views(out@) == string_views(before) + string_views(sigs@.take(m as int)),
                    decreases sigs@.len() - m,
                {
                    let ghost prev = out@;
                    out.push(sigs[m].clone());
                    assert(string_views(out@) =~= string_views(prev).push(sigs@[m as int]@));
                    assert(sigs@.take(m + 1) =~= sigs@.take(m as int).push(sigs@[m as int]));
                    assert(string_views(sigs@.take(m + 1)) =~= string_views(sigs@.take(m as int)).push(sigs@[m as int]@));
                    m = m + 1;
                    assert(string_views(out@) =~= string_views(before) + string_views(sigs@.take(m as int)));
                }
                assert(sigs@.take(m as int) =~= sigs@);
            } else {
                assert(string_views(out@) =~= reattached(e.take(i as int), needed@) + Seq::empty());
            }
            i = i + 1;
        }
        assert(e.take(i as int) =~= e);
        out
    }
}

proof fn lemma_first_bug_error_extends(
    bugs: Seq<(usize, BugRecord)>,
    more: Seq<(usize, BugRecord)>,
    config: crate::extra_fields::Fields,
)
    requires
        first_bug_error(bugs, config) is Some,
    ensures
        first_bug_error(bugs + more, config) == first_bug_error(bugs, config),
    decreases more.len(),
{
    if more.len() > 0 {
        lemma_first_bug_error_extends(bugs, more.drop_last(), config);
        assert((bugs + more).drop_last() =~= bugs + more.drop_last());
    } else {
        assert(bugs + more =~= bugs);
    }
}

proof fn lemma_first_issue_error_extends(
    issues: Seq<(usize, IssueRecord)>,
    more: Seq<(usize, IssueRecord)>,
    config: crate::extra_fields::Fields,
)
    requires
        first_issue_error(issues, config) is Some,
    ensures
        first_issue_error(issues + more, config) == first_issue_error(issues, config),
    decreases more.len(),
{
    if more.len() > 0 {
        lemma_first_issue_error_extends(issues, more.drop_last(), config);
        assert((issues + more).drop_last() =~= issues + more.drop_last());
    } else {
        assert(issues + more =~= issues);
    }
}

/// Resolution is shared between referrers: two queries that refer to the
/// same set of queries get the same signatures back.
pub proof fn lemma_shared_resolution(e: SignatureEntries, a: TicketQuery, b: TicketQuery)
    requires
        forall|q: usize| a.references@.contains(q) <==> b.references@.contains(q),
    ensures
        reattached(e, a.references@) == reattached(e, b.references@),
    decreases e.len(),
{
    if e.len() > 0 {
        lemma_shared_resolution(e.drop_last(), a, b);
    }
}

} // verus!
