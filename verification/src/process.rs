//! The process listing: which entries of the process registry are shown to
//! a caller, and what is printed for each.

use crate::cputime::{elapsed, get_time};
use crate::error::PsError;
use crate::pattern::{compiles, is_pid_name, pid_pattern, PidMatcher};
use crate::stat::{controlling_tty, get_tty};
use crate::status::{caller_identity, get_proc_status, self_identity, status_name, status_owner};
use crate::text::text_views;
use vstd::prelude::*;
use vstd::string::StringExecFns;

verus! {

/// One entry of the process registry as it was found: its name and the
/// text of its two records. A record that could not be read, because the
/// process had gone or for any other reason, is absent.
#[derive(Debug)]
pub struct RegistryEntry {
    pub name: String,
    pub status: Option<String>,
    pub stat: Option<String>,
}

/// What a `RegistryEntry` holds, as sequences of characters.
pub struct EntryModel {
    pub name: Seq<char>,
    pub status: Option<Seq<char>>,
    pub stat: Option<Seq<char>>,
}

/// The view of a string that may be absent.
pub open spec fn text_view(text: Option<String>) -> Option<Seq<char>> {
    match text {
        Some(t) => Some(t@),
        None => None,
    }
}

impl View for RegistryEntry {
    type V = EntryModel;

    open spec fn view(&self) -> EntryModel {
        EntryModel {
            name: self.name@,
            status: text_view(self.status),
            stat: text_view(self.stat),
        }
    }
}

/// What is known of one process while it is listed.
#[derive(Debug)]
pub struct ProcessRecord {
    pub pid: String,
    pub owner_id: String,
    pub display_name: String,
    pub tty: String,
    pub cpu_time: String,
}

/// What a `ProcessRecord` holds, as sequences of characters.
pub struct RecordModel {
    pub pid: Seq<char>,
    pub owner_id: Seq<char>,
    pub display_name: Seq<char>,
    pub tty: Seq<char>,
    pub cpu_time: Seq<char>,
}

impl View for ProcessRecord {
    type V = RecordModel;

    open spec fn view(&self) -> RecordModel {
        RecordModel {
            pid: self.pid@,
            owner_id: self.owner_id@,
            display_name: self.display_name@,
            tty: self.tty@,
            cpu_time: self.cpu_time@,
        }
    }
}

/// The process registry and the caller's own status record as they were
/// found. Either is absent when it could not be read.
#[derive(Debug)]
pub struct Snapshot {
    pub self_status: Option<String>,
    pub registry: Option<Vec<RegistryEntry>>,
}

/// The views of a sequence of registry entries.
pub open spec fn entry_views(entries: Seq<RegistryEntry>) -> Seq<EntryModel> {
    entries.map_values(|e: RegistryEntry| e@)
}

/// The record of the process `pid` with the given status and stat records.
pub open spec fn record_of(pid: Seq<char>, status: Seq<char>, stat: Seq<char>) -> RecordModel {
    RecordModel {
        pid,
        owner_id: status_owner(status),
        display_name: status_name(status),
        tty: controlling_tty(stat),
        cpu_time: elapsed(),
    }
}

/// What separates the columns of a line of the listing.
pub open spec fn gap() -> Seq<char> {
    " "@
}

/// The first line of every listing.
pub open spec fn header() -> Seq<char> {
    "PID    TTY    TIME    CMD"@
}

/// The line of the listing for one process: identifier, terminal, time
/// and name, with one space between them.
pub open spec fn format_line(rec: RecordModel) -> Seq<char> {
    rec.pid + gap() + rec.tty + gap() + rec.cpu_time + gap() + rec.display_name
}

/// The record that the entry `e` gives to the caller `uid`, if it gives
/// one. It does when its name is a process identifier, both of its
/// records were read, and its status record declares an owner that is
/// `uid`. An entry whose owner cannot be told is shown to nobody.
pub open spec fn entry_record(uid: Seq<char>, e: EntryModel) -> Option<RecordModel> {
    if is_pid_name(e.name) && e.status is Some && e.stat is Some && status_owner(
        e.status->0,
    ).len() > 0 && status_owner(e.status->0) == uid {
        Some(record_of(e.name, e.status->0, e.stat->0))
    } else {
        None
    }
}

/// The line that the entry `e` adds to the listing of the caller `uid`,
/// if it adds one.
pub open spec fn entry_line(uid: Seq<char>, e: EntryModel) -> Option<Seq<char>> {
    match entry_record(uid, e) {
        Some(rec) => Some(format_line(rec)),
        None => None,
    }
}

/// The lines for the processes of the caller `uid` among `entries`, in
/// the order of the entries, one line for each entry that gives a record.
pub open spec fn listing(uid: Seq<char>, entries: Seq<EntryModel>) -> Seq<Seq<char>> {
    entries.filter_map(|e: EntryModel| entry_line(uid, e))
}

/// What the listing command gives for a snapshot: the header and the
/// lines of the caller's processes, or the reason why there is no listing.
pub open spec fn ps_outcome(
    self_status: Option<Seq<char>>,
    registry: Option<Seq<EntryModel>>,
) -> Result<Seq<Seq<char>>, PsError> {
    if self_status is None {
        Err(PsError::SelfStatusUnreadable)
    } else if caller_identity(self_status->0) is None {
        Err(PsError::NoOwnerIdentity)
    } else if registry is None {
        Err(PsError::RegistryUnreadable)
    } else {
        Ok(seq![header()] + listing(caller_identity(self_status->0)->0, registry->0))
    }
}

impl Snapshot {
    /// What the listing command gives for this snapshot.
    pub open spec fn outcome(&self) -> Result<Seq<Seq<char>>, PsError> {
        ps_outcome(
            text_view(self.self_status),
            match self.registry {
                Some(entries) => Some(entry_views(entries@)),
                None => None,
            },
        )
    }
}

/// Whether the lines or the failure `r` are those of `expected`.
pub open spec fn agrees(
    r: Result<Vec<String>, PsError>,
    expected: Result<Seq<Seq<char>>, PsError>,
) -> bool {
    match expected {
        Ok(lines) => r is Ok && text_views(r->Ok_0@) == lines,
        Err(e) => r is Err && r->Err_0 == e,
    }
}

impl ProcessRecord {
    /// Builds the record of the process `pid` from the text of its status
    /// and stat records.
    pub fn read(pid: &str, status: &str, stat: &str) -> (rec: ProcessRecord)
        ensures
            rec@ == record_of(pid@, status@, stat@),
    {
        let (owner_id, display_name) = get_proc_status(status);
        let tty = get_tty(stat);
        ProcessRecord {
            pid: String::from_str(pid),
            owner_id,
            display_name,
            tty,
            cpu_time: String::from_str(get_time(pid)),
        }
    }

    /// The line of the listing for this process.
    pub fn line(&self) -> (text: String)
        ensures
            text@ == format_line(self@),
    {
        let mut text = self.pid.clone();
        text.append(" ");
        text.append(self.tty.as_str());
        text.append(" ");
        text.append(self.cpu_time.as_str());
        text.append(" ");
        text.append(self.display_name.as_str());
        text
    }
}

/// Whether a status record declares `uid` as the owner of its process.
/// A record that declares no owner declares no `uid`.
pub fn owned_by(status: &str, uid: &str) -> (b: bool)
    ensures
        b == (status_owner(status@).len() > 0 && status_owner(status@) == uid@),
{
    let (owner, _) = get_proc_status(status);
    let wanted = String::from_str(uid);
    !owner.as_str().is_empty() && owner == wanted
}

/// The record that `entry` gives to the caller `uid`, if it gives one.
pub fn examine(matcher: &PidMatcher, uid: &str, entry: &RegistryEntry) -> (found: Option<
    ProcessRecord,
>)
    ensures
        match entry_record(uid@, entry@) {
            Some(rec) => found is Some && found->0@ == rec,
            None => found is None,
        },
{
    if !matcher.is_pid(entry.name.as_str()) {
        return None;
    }
    match &entry.status {
        None => None,
        Some(status) => match &entry.stat {
            None => None,
            Some(stat) => {
                if owned_by(status.as_str(), uid) {
                    Some(ProcessRecord::read(entry.name.as_str(), status.as_str(), stat.as_str()))
                } else {
                    None
                }
            },
        },
    }
}

/// The lines for the processes of the caller `uid` among `entries`.
pub fn list_entries(matcher: &PidMatcher, uid: &str, entries: &Vec<RegistryEntry>) -> (out: Vec<
    String,
>)
    ensures
        text_views(out@) == listing(uid@, entry_views(entries@)),
{
    let mut out: Vec<String> = Vec::new();
    let ghost all = entry_views(entries@);
    let ghost f = |e: EntryModel| entry_line(uid@, e);
    for i in 0..entries.len()
        invariant
            all == entry_views(entries@),
            f == (|e: EntryModel| entry_line(uid@, e)),
            text_views(out@) == all.take(i as int).filter_map(f),
    {
        let ghost before = text_views(out@);
        proof {
            all.lemma_filter_map_take_succ(f, i as int);
        }
        match examine(matcher, uid, &entries[i]) {
            Some(rec) => {
                let text = rec.line();
                out.push(text);
                assert(text_views(out@) =~= before + seq![text@]);
            },
            None => {
                assert(before + Seq::<Seq<char>>::empty() =~= before);
            },
        }
    }
    assert(all.take(entries.len() as int) =~= all);
    out
}

/// The listing for a snapshot, with the recogniser of process entries
/// given: the header and one line for each process of the caller, in the
/// order of the registry, or the reason why nothing can be listed.
pub fn ps_with(matcher: &PidMatcher, snapshot: &Snapshot) -> (r: Result<Vec<String>, PsError>)
    ensures
        agrees(r, snapshot.outcome()),
{
    let uid = match &snapshot.self_status {
        None => {
            return Err(PsError::SelfStatusUnreadable);
        },
        Some(status) => match self_identity(status.as_str()) {
            Err(e) => {
                return Err(e);
            },
            Ok(uid) => uid,
        },
    };
    match &snapshot.registry {
        None => Err(PsError::RegistryUnreadable),
        Some(entries) => {
            let mut out: Vec<String> = Vec::new();
            out.push(String::from_str("PID    TTY    TIME    CMD"));
            let mut lines = list_entries(matcher, uid.as_str(), entries);
            let ghost listed = text_views(lines@);
            out.append(&mut lines);
            assert(text_views(out@) =~= seq![header()] + listed);
            Ok(out)
        },
    }
}

/// The listing for a snapshot. The recogniser of process entries is
/// compiled first: where its pattern is rejected nothing is listed and
/// that is the failure reported, whatever the snapshot holds. Otherwise
/// the result is the header and the caller's processes, or the reason why
/// the snapshot gives no listing.
pub fn ps(snapshot: &Snapshot) -> (r: Result<Vec<String>, PsError>)
    ensures
        compiles(pid_pattern()) ==> agrees(r, snapshot.outcome()),
        !compiles(pid_pattern()) ==> r is Err && r->Err_0 == PsError::PatternRejected,
{
    match PidMatcher::new() {
        Ok(matcher) => ps_with(&matcher, snapshot),
        Err(e) => Err(e),
    }
}

} // verus!
