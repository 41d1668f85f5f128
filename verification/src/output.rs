//! The lines that a command's report is written as, where it is not JSON.
use vstd::prelude::*;

use crate::scratchpad::{decimal, quoted, spec_decimal, DoctorReport, Output, ScratchpadSummary};
use crate::text::{owned, views};

verus! {

/// `ok` when Herdr is reachable, else `unavailable`.
pub open spec fn spec_availability(ok: bool) -> Seq<char> {
    if ok {
        "ok"@
    } else {
        "unavailable"@
    }
}

/// The word the `doctor` report gives Herdr's availability.
pub fn status_word(ok: bool) -> (w: &'static str)
    ensures
        w@ == spec_availability(ok),
{
    if ok {
        "ok"
    } else {
        "unavailable"
    }
}

/// One line of `list`: name, lifecycle, scope and start directory (`-` when
/// there is none), separated by tabs.
pub open spec fn summary_line(s: ScratchpadSummary) -> Seq<char> {
    s.name@ + "\t"@ + s.status@ + "\t"@ + s.scope@ + "\t"@ + match s.cwd {
        Some(c) => c@,
        None => "-"@,
    }
}

/// The lines of `list`: one per scratchpad, or a note that there is none.
pub open spec fn spec_listing(items: Seq<ScratchpadSummary>) -> Seq<Seq<char>> {
    if items.len() == 0 {
        seq!["no scratchpads"@]
    } else {
        items.map_values(|s: ScratchpadSummary| summary_line(s))
    }
}

/// The lines of `doctor`: Herdr's availability, the four paths, the number
/// of scratchpads, then one line per issue.
pub open spec fn spec_doctor_lines(r: DoctorReport) -> Seq<Seq<char>> {
    seq![
        "herdr: "@ + spec_availability(r.herdr_available),
        "config dir: "@ + r.config_dir@,
        "config: "@ + r.config_path@,
        "state dir: "@ + r.state_dir@,
        "state: "@ + r.state_path@,
        "scratchpads: "@ + spec_decimal(r.scratchpad_count as nat),
    ] + views(r.issues@).map_values(|i: Seq<char>| "issue: "@ + i)
}

/// The lines that a report is written as; `None` for the reports that are
/// written as JSON and for running a session. The two configuration reports
/// give the line that follows a successful write.
pub open spec fn spec_text_lines(o: Output) -> Option<Seq<Seq<char>>> {
    match o {
        Output::Text(t) => Some(seq![t@]),
        Output::Scratchpads { scratchpads, json } => if json {
            None
        } else {
            Some(spec_listing(scratchpads@))
        },
        Output::Doctor { report, json } => if json {
            None
        } else {
            Some(spec_doctor_lines(report))
        },
        Output::InitConfig { path, .. } => Some(seq!["wrote default config to "@ + path@]),
        Output::WriteConfig { path, name } => Some(
            seq![quoted("added scratchpad "@, name@) + " to "@ + path@],
        ),
        Output::Json(_) => None,
        Output::Session => None,
    }
}

fn prefixed(prefix: &str, text: &str) -> (r: String)
    ensures
        r@ == prefix@ + text@,
{
    let mut r = owned(prefix);
    r.append(text);
    r
}

/// The `list` line of one scratchpad.
pub fn listing_line(s: &ScratchpadSummary) -> (line: String)
    ensures
        line@ == summary_line(*s),
{
    let mut line = owned(s.name.as_str());
    line.append("\t");
    line.append(s.status.as_str());
    line.append("\t");
    line.append(s.scope.as_str());
    line.append("\t");
    match &s.cwd {
        Some(c) => line.append(c.as_str()),
        None => line.append("-"),
    }
    line
}

/// The lines of `list`.
pub fn listing_lines(items: &Vec<ScratchpadSummary>) -> (lines: Vec<String>)
    ensures
        views(lines@) == spec_listing(items@),
{
    let mut lines: Vec<String> = Vec::new();
    if items.len() == 0 {
        lines.push(owned("no scratchpads"));
        assert(views(lines@) =~= spec_listing(items@));
        return lines;
    }
    let mut i: usize = 0;
    while i < items.len()
        invariant
            i <= items@.len(),
            views(lines@) =~= items@.take(i as int).map_values(|s: ScratchpadSummary| summary_line(s)),
        decreases items@.len() - i,
    {
        let line = listing_line(&items[i]);
        let ghost before = lines@;
        lines.push(line);
        assert(lines@ =~= before.push(line));
        assert(views(lines@) =~= views(before).push(line@));
        assert(items@.take(i as int + 1) =~= items@.take(i as int).push(items@[i as int]));
        assert(items@.take(i as int + 1).map_values(|s: ScratchpadSummary| summary_line(s))
            =~= items@.take(i as int).map_values(|s: ScratchpadSummary| summary_line(s)).push(summary_line(items@[i as int])));
        i = i + 1;
    }
    assert(items@.take(items@.len() as int) =~= items@);
    lines
}

/// The lines of `doctor`.
pub fn doctor_lines(r: &DoctorReport) -> (lines: Vec<String>)
    ensures
        views(lines@) == spec_doctor_lines(*r),
{
    let mut lines: Vec<String> = Vec::new();
    lines.push(prefixed("herdr: ", status_word(r.herdr_available)));
    lines.push(prefixed("config dir: ", r.config_dir.as_str()));
    lines.push(prefixed("config: ", r.config_path.as_str()));
    lines.push(prefixed("state dir: ", r.state_dir.as_str()));
    lines.push(prefixed("state: ", r.state_path.as_str()));
    let count = decimal(r.scratchpad_count as u64);
    lines.push(prefixed("scratchpads: ", count.as_str()));
    let ghost head = views(lines@);
    let ghost issues = views(r.issues@);
    let mut i: usize = 0;
    while i < r.issues.len()
        invariant
            i <= issues.len(),
            issues == views(r.issues@),
            views(lines@) =~= head + issues.take(i as int).map_values(|t: Seq<char>| "issue: "@ + t),
        decreases issues.len() - i,
    {
        let line = prefixed("issue: ", r.issues[i].as_str());
        let ghost before = lines@;
        lines.push(line);
        assert(lines@ =~= before.push(line));
        assert(views(lines@) =~= views(before).push(line@));
        assert(issues[i as int] == r.issues@[i as int]@);
        assert(issues.take(i as int + 1) =~= issues.take(i as int).push(issues[i as int]));
        assert(issues.take(i as int + 1).map_values(|t: Seq<char>| "issue: "@ + t)
            =~= issues.take(i as int).map_values(|t: Seq<char>| "issue: "@ + t).push("issue: "@ + issues[i as int]));
        i = i + 1;
    }
    assert(issues.take(issues.len() as int) =~= issues);
    assert(views(lines@) =~= spec_doctor_lines(*r));
    lines
}

/// The lines that `report` is written as, where it is not JSON (see
/// `spec_text_lines`).
pub fn text_lines(report: &Output) -> (lines: Option<Vec<String>>)
    ensures
        match lines {
            Some(l) => spec_text_lines(*report) == Some(views(l@)),
            None => spec_text_lines(*report) is None,
        },
{
    match report {
        Output::Text(t) => {
            let mut l: Vec<String> = Vec::new();
            l.push(owned(t.as_str()));
            assert(views(l@) =~= seq![t@]);
            Some(l)
        },
        Output::Scratchpads { scratchpads, json } => if *json {
            None
        } else {
            Some(listing_lines(scratchpads))
        },
        Output::Doctor { report, json } => if *json {
            None
        } else {
            Some(doctor_lines(report))
        },
        Output::InitConfig { path, .. } => {
            let mut l: Vec<String> = Vec::new();
            l.push(prefixed("wrote default config to ", path.as_str()));
            assert(views(l@) =~= seq!["wrote default config to "@ + path@]);
            Some(l)
        },
        Output::WriteConfig { path, name } => {
            let mut text = prefixed("added scratchpad `", name.as_str());
            text.append("` to ");
            text.append(path.as_str());
            let mut l: Vec<String> = Vec::new();
            l.push(text);
            proof {
                reveal_strlit("added scratchpad `");
                reveal_strlit("added scratchpad ");
                reveal_strlit("`");
                reveal_strlit("` to ");
                reveal_strlit(" to ");
            }
            assert(text@ =~= quoted("added scratchpad "@, name@) + " to "@ + path@);
            assert(views(l@) =~= seq![quoted("added scratchpad "@, name@) + " to "@ + path@]);
            Some(l)
        },
        Output::Json(_) => None,
        Output::Session => None,
    }
}

} // verus!
