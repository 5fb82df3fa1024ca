//! Alert analysis reports kept in memory, by alert id.
use vstd::prelude::*;

use crate::text::{str_eq, to_string};

verus! {

/// The first index at or after `i` of an entry for `id`.
pub open spec fn find_entry(s: Seq<(String, String)>, id: Seq<char>, i: int) -> Option<int>
    decreases s.len() - i,
{
    if i < 0 || i >= s.len() {
        None
    } else if s[i].0@ == id {
        Some(i)
    } else {
        find_entry(s, id, i + 1)
    }
}

proof fn lemma_find_entry(s: Seq<(String, String)>, id: Seq<char>, i: int)
    requires
        0 <= i,
    ensures
        match find_entry(s, id, i) {
            Some(j) => i <= j < s.len() && s[j].0@ == id && forall|m: int|
                i <= m < j ==> (#[trigger] s[m]).0@ != id,
            None => forall|m: int| i <= m < s.len() ==> (#[trigger] s[m]).0@ != id,
        },
    decreases s.len() - i,
{
    if i < s.len() && s[i].0@ != id {
        lemma_find_entry(s, id, i + 1);
    }
}

/// The report kept for `id` among the entries `s`.
pub open spec fn report_of(s: Seq<(String, String)>, id: Seq<char>) -> Option<Seq<char>> {
    match find_entry(s, id, 0) {
        Some(j) => Some(s[j].1@),
        None => None,
    }
}

/// Analysis reports by alert id.
pub struct AlertService {
    pub reports: Vec<(String, String)>,
}

impl AlertService {
    /// A service that keeps no report.
    pub fn new() -> (r: AlertService)
        ensures
            forall|id: Seq<char>| report_of(r.reports@, id) is None,
    {
        AlertService { reports: Vec::new() }
    }

    fn find(&self, alert_id: &str) -> (r: Option<usize>)
        ensures
            match r {
                Some(j) => find_entry(self.reports@, alert_id@, 0) == Some(j as int) && j
                    < self.reports@.len(),
                None => find_entry(self.reports@, alert_id@, 0) is None,
            },
    {
        let mut i: usize = 0;
        while i < self.reports.len()
            invariant
                i <= self.reports.len(),
                find_entry(self.reports@, alert_id@, 0) == find_entry(
                    self.reports@,
                    alert_id@,
                    i as int,
                ),
            decreases self.reports.len() - i,
        {
            if str_eq(self.reports[i].0.as_str(), alert_id) {
                return Some(i);
            }
            i = i + 1;
        }
        None
    }

    /// Keeps `report` as the report of `alert_id`, in place of any earlier one.
    pub fn store_report(&mut self, alert_id: &str, report: &str)
        ensures
            report_of(final(self).reports@, alert_id@) == Some(report@),
            forall|id: Seq<char>|
                id != alert_id@ ==> report_of(final(self).reports@, id) == report_of(
                    old(self).reports@,
                    id,
                ),
    {
        let ghost pre = self.reports@;
        proof {
            lemma_find_entry(pre, alert_id@, 0);
        }
        match self.find(alert_id) {
            Some(j) => {
                let key = self.reports[j].0.clone();
                let value = to_string(report);
                self.reports.set(j, (key, value));
                proof {
                    assert(self.reports@[j as int].0@ == alert_id@);
                    assert(self.reports@[j as int].1@ == report@);
                    lemma_find_entry(self.reports@, alert_id@, 0);
                    match find_entry(self.reports@, alert_id@, 0) {
                        Some(b) => {
                            assert(pre[b].0@ == self.reports@[b].0@);
                        },
                        None => {},
                    }
                    assert forall|id: Seq<char>| id != alert_id@ implies report_of(
                        self.reports@,
                        id,
                    ) == report_of(pre, id) by {
                        lemma_find_entry(self.reports@, id, 0);
                        lemma_find_entry(pre, id, 0);
                        match find_entry(pre, id, 0) {
                            Some(a) => {
                                assert(self.reports@[a].0@ == id);
                            },
                            None => {},
                        }
                        match find_entry(self.reports@, id, 0) {
                            Some(b) => {
                                assert(pre[b].0@ == self.reports@[b].0@);
                            },
                            None => {},
                        }
                    }
                }
            },
            None => {
                self.reports.push((to_string(alert_id), to_string(report)));
                proof {
                    assert(self.reports@[pre.len() as int].0@ == alert_id@);
                    assert(self.reports@[pre.len() as int].1@ == report@);
                    lemma_find_entry(self.reports@, alert_id@, 0);
                    match find_entry(self.reports@, alert_id@, 0) {
                        Some(b) => {
                            if b < pre.len() {
                                assert(self.reports@[b] == pre[b]);
                            }
                        },
                        None => {},
                    }
                    assert forall|id: Seq<char>| id != alert_id@ implies report_of(
                        self.reports@,
                        id,
                    ) == report_of(pre, id) by {
                        lemma_find_entry(self.reports@, id, 0);
                        lemma_find_entry(pre, id, 0);
                        match find_entry(pre, id, 0) {
                            Some(a) => {
                                assert(self.reports@[a] == pre[a]);
                            },
                            None => {},
                        }
                        match find_entry(self.reports@, id, 0) {
                            Some(b) => {
                                if b < pre.len() {
                                    assert(self.reports@[b] == pre[b]);
                                }
                            },
                            None => {},
                        }
                    }
                }
            },
        }
    }

    /// The report kept for `alert_id`, if any.
    pub fn get_report(&self, alert_id: &str) -> (r: Option<String>)
        ensures
            match r {
                Some(s) => report_of(self.reports@, alert_id@) == Some(s@),
                None => report_of(self.reports@, alert_id@) is None,
            },
    {
        match self.find(alert_id) {
            Some(j) => Some(self.reports[j].1.clone()),
            None => None,
        }
    }
}

} // verus!
