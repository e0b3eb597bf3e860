//! The report as plain lines of text: one line for each name that was found,
//! one line for all the names that were not, one line for each failure.

use vstd::prelude::*;
use vstd::string::*;

use crate::names::texts;
use crate::outcome::Crate;
use crate::report::{Failure, Report};

verus! {

/// `parts` in order, with `separator` between each two.
pub open spec fn joined(parts: Seq<Seq<char>>, separator: Seq<char>) -> Seq<char>
    decreases parts.len(),
{
    if parts.len() == 0 {
        Seq::empty()
    } else if parts.len() == 1 {
        parts[0]
    } else {
        joined(parts.drop_last(), separator) + separator + parts.last()
    }
}

/// The line of a found name: the name, a colon, a blank and the version.
pub open spec fn found_text(krate: Crate) -> Seq<char> {
    krate.name@ + ": "@ + krate.max_version@
}

/// The one line of all names that were not found, separated by commas.
pub open spec fn not_found_text(names: Seq<Seq<char>>) -> Seq<char> {
    "not found: "@ + joined(names, ", "@)
}

/// The line of a failure: the name, a colon, a blank and the cause.
pub open spec fn failed_text(failure: Failure) -> Seq<char> {
    failure.name@ + ": "@ + failure.cause@
}

/// The lines of the found names, in order.
pub open spec fn found_texts(found: Seq<Crate>) -> Seq<Seq<char>> {
    found.map_values(|krate: Crate| found_text(krate))
}

/// The lines of the failures, in order.
pub open spec fn failed_texts(failed: Seq<Failure>) -> Seq<Seq<char>> {
    failed.map_values(|failure: Failure| failed_text(failure))
}

/// The lines of a report: the found names, then the line of the names not
/// found if there is any, then the failures.
pub open spec fn rendered(
    found: Seq<Crate>,
    not_found: Seq<String>,
    failed: Seq<Failure>,
) -> Seq<Seq<char>> {
    found_texts(found) + (if not_found.len() > 0 {
        seq![not_found_text(texts(not_found))]
    } else {
        Seq::empty()
    }) + failed_texts(failed)
}

/// Joins `parts` with `separator` between each two.
pub fn join(parts: &Vec<String>, separator: &str) -> (line: String)
    ensures
        line@ == joined(texts(parts@), separator@),
{
    let mut line = String::new();
    let mut at: usize = 0;
    while at < parts.len()
        invariant
            at <= parts.len(),
            line@ == joined(texts(parts@).take(at as int), separator@),
        decreases parts.len() - at,
    {
        proof {
            assert(texts(parts@).take(at + 1).drop_last() =~= texts(parts@).take(at as int));
        }
        if at > 0 {
            line.append(separator);
        }
        line.append(parts[at].as_str());
        proof {
            if at == 0 {
                assert(line@ =~= parts[0]@);
            }
        }
        at += 1;
    }
    assert(texts(parts@).take(at as int) =~= texts(parts@));
    line
}

/// The line that reports a found name with its newest version.
pub fn found_line(krate: &Crate) -> (line: String)
    ensures
        line@ == found_text(*krate),
{
    let mut line = krate.name.clone();
    line.append(": ");
    line.append(krate.max_version.as_str());
    line
}

/// The line that reports all the names that the registry does not know.
pub fn not_found_line(names: &Vec<String>) -> (line: String)
    ensures
        line@ == not_found_text(texts(names@)),
{
    let mut line = String::from_str("not found: ");
    let list = join(names, ", ");
    line.append(list.as_str());
    line
}

/// The line that reports a failure with its cause.
pub fn failed_line(failure: &Failure) -> (line: String)
    ensures
        line@ == failed_text(*failure),
{
    let mut line = failure.name.clone();
    line.append(": ");
    line.append(failure.cause.as_str());
    line
}

/// Renders a report as lines of text.
pub fn render(report: &Report) -> (lines: Vec<String>)
    requires
        report.wf(),
    ensures
        texts(lines@) == rendered(
            report.found_entries(),
            report.not_found_names(),
            report.failed_entries(),
        ),
{
    let found = report.found();
    let not_found = report.not_found();
    let failed = report.failed();
    let mut lines: Vec<String> = Vec::new();
    let mut at: usize = 0;
    while at < found.len()
        invariant
            at <= found.len(),
            texts(lines@) == found_texts(found@.take(at as int)),
        decreases found.len() - at,
    {
        let ghost before = texts(lines@);
        lines.push(found_line(&found[at]));
        proof {
            assert(texts(lines@) =~= before.push(found_text(found[at as int])));
            assert(found@.take(at + 1) =~= found@.take(at as int).push(found[at as int]));
            assert(found_texts(found@.take(at + 1)) =~= found_texts(found@.take(at as int)).push(
                found_text(found[at as int]),
            ));
        }
        at += 1;
    }
    assert(found@.take(at as int) =~= found@);
    let ghost head = texts(lines@);
    if not_found.len() > 0 {
        lines.push(not_found_line(not_found));
        assert(texts(lines@) =~= head + seq![not_found_text(texts(not_found@))]);
    } else {
        assert(texts(lines@) =~= head + Seq::<Seq<char>>::empty());
    }
    let ghost middle = texts(lines@);
    let mut at: usize = 0;
    while at < failed.len()
        invariant
            at <= failed.len(),
            texts(lines@) == middle + failed_texts(failed@.take(at as int)),
        decreases failed.len() - at,
    {
        let ghost before = texts(lines@);
        lines.push(failed_line(&failed[at]));
        proof {
            assert(texts(lines@) =~= before.push(failed_text(failed[at as int])));
            assert(failed@.take(at + 1) =~= failed@.take(at as int).push(failed[at as int]));
            assert(failed_texts(failed@.take(at + 1)) =~= failed_texts(
                failed@.take(at as int),
            ).push(failed_text(failed[at as int])));
        }
        at += 1;
    }
    assert(failed@.take(at as int) =~= failed@);
    lines
}

} // verus!
