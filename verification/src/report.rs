//! The whole run: from the JSON text to the lines of the table. A failure
//! anywhere ends the run with no lines at all.

use vstd::prelude::*;
use vstd::string::*;

use crate::decode::{decode, decoded, inspect_views};
use crate::host::{host_of, Failure, Host, HostView, Inspect, InspectView};
use crate::table::{host_views, render, rendered};
use crate::text::texts;

verus! {

/// The hosts that a list of records describes, in the order of the records.
/// If some records describe no host, the failure is that of the first of
/// them.
pub open spec fn hosts_of(records: Seq<InspectView>) -> Result<Seq<HostView>, Failure>
    decreases records.len(),
{
    if records.len() == 0 {
        Ok(Seq::empty())
    } else {
        match hosts_of(records.drop_last()) {
            Err(e) => Err(e),
            Ok(hosts) => match host_of(records.last()) {
                Err(e) => Err(e),
                Ok(host) => Ok(hosts.push(host)),
            },
        }
    }
}

/// The table of a list of records.
pub open spec fn table_of_records(records: Seq<InspectView>) -> Result<Seq<Seq<char>>, Failure> {
    match hosts_of(records) {
        Err(e) => Err(e),
        Ok(hosts) => Ok(rendered(hosts)),
    }
}

/// The table of a JSON text.
pub open spec fn table_of(text: Seq<char>) -> Result<Seq<Seq<char>>, Failure> {
    match decoded(text) {
        None => Err(Failure::Decode),
        Some(records) => table_of_records(records),
    }
}

/// Builds the host of every record, in order, and stops at the first record
/// that describes none.
pub fn hosts_from_records(records: &Vec<Inspect>) -> (res: Result<Vec<Host>, Failure>)
    ensures
        match res {
            Ok(hosts) => hosts_of(inspect_views(records@)) == Ok::<Seq<HostView>, Failure>(
                host_views(hosts@),
            ),
            Err(e) => hosts_of(inspect_views(records@)) == Err::<Seq<HostView>, Failure>(e),
        },
{
    let ghost rs = inspect_views(records@);
    let mut hosts: Vec<Host> = Vec::new();
    let mut i: usize = 0;
    assert(host_views(hosts@) =~= Seq::empty());
    while i < records.len()
        invariant
            i <= records.len(),
            rs == inspect_views(records@),
            hosts_of(rs.take(i as int)) == Ok::<Seq<HostView>, Failure>(host_views(hosts@)),
        decreases records.len() - i,
    {
        let ghost so_far = host_views(hosts@);
        assert(rs.take(i + 1).drop_last() =~= rs.take(i as int));
        assert(rs.take(i + 1).last() == records@[i as int]@);
        match Host::from_inspect(&records[i]) {
            Ok(host) => {
                hosts.push(host);
                assert(host_views(hosts@) =~= so_far.push(host@));
            },
            Err(e) => {
                proof {
                    lemma_failure_stays(rs, i + 1);
                }
                return Err(e);
            },
        }
        i = i + 1;
    }
    assert(rs.take(i as int) =~= rs);
    Ok(hosts)
}

/// Once the first `n` records fail, so do all of them, in the same way.
pub proof fn lemma_failure_stays(records: Seq<InspectView>, n: int)
    requires
        0 <= n <= records.len(),
        hosts_of(records.take(n)) is Err,
    ensures
        hosts_of(records) == hosts_of(records.take(n)),
    decreases records.len(),
{
    if n < records.len() {
        assert(records.drop_last().take(n) =~= records.take(n));
        lemma_failure_stays(records.drop_last(), n);
    } else {
        assert(records.take(n) =~= records);
    }
}

/// Renders the table of a list of records.
pub fn table_from_records(records: &Vec<Inspect>) -> (res: Result<Vec<String>, Failure>)
    ensures
        match res {
            Ok(lines) => table_of_records(inspect_views(records@)) == Ok::<
                Seq<Seq<char>>,
                Failure,
            >(texts(lines@)),
            Err(e) => table_of_records(inspect_views(records@)) == Err::<Seq<Seq<char>>, Failure>(e),
        },
{
    match hosts_from_records(records) {
        Ok(hosts) => Ok(render(&hosts)),
        Err(e) => Err(e),
    }
}

/// Renders the table of the containers that a JSON text describes: the
/// lines to print, or the failure that ends the run before anything is
/// printed.
pub fn table_from_json(text: &str) -> (res: Result<Vec<String>, Failure>)
    ensures
        match res {
            Ok(lines) => table_of(text@) == Ok::<Seq<Seq<char>>, Failure>(texts(lines@)),
            Err(e) => table_of(text@) == Err::<Seq<Seq<char>>, Failure>(e),
        },
{
    match decode(text) {
        Ok(records) => table_from_records(&records),
        Err(e) => Err(e),
    }
}

} // verus!
