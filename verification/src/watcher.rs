//! The decisions of the request watcher: which directory entries are
//! candidates, what to do with one request file's contents, the scan over
//! requests that already exist, and the tick budget of the timed watch
//! loop.
//!
//! The watcher's surroundings (listing the directory, registering the
//! filesystem watch, reading files, sleeping) hand plain values in and act
//! on the decisions handed back.

use vstd::prelude::*;
use crate::bytes::{matches_at, matches_at_exec};
use crate::request::{
    Classification, Request, spec_classification, spec_socket, spec_message, spec_request, parse,
};

verus! {

// --- candidate file names ---

/// The `ask.` prefix that marks request files.
pub open spec fn ask_prefix() -> Seq<u8> {
    seq!['a' as u8, 's' as u8, 'k' as u8, '.' as u8]
}

/// The `ask.` prefix as bytes.
pub fn ask_prefix_bytes() -> (v: Vec<u8>)
    ensures
        v@ == ask_prefix(),
{
    let mut v: Vec<u8> = Vec::new();
    v.push('a' as u8);
    v.push('s' as u8);
    v.push('k' as u8);
    v.push('.' as u8);
    proof {
        assert(v@ =~= ask_prefix());
    }
    v
}

/// A name the watch loop treats as a request file: it begins with `ask.`.
pub open spec fn is_watch_candidate(name: Seq<u8>) -> bool {
    matches_at(name, ask_prefix(), 0)
}

/// A name the initial scan treats as a request file: its stem is the
/// token `ask`, that is, it begins with `ask.` and the suffix holds no
/// further dot.  A bare `ask` is malformed input and is skipped.
pub open spec fn is_scan_candidate(name: Seq<u8>) -> bool {
    matches_at(name, ask_prefix(), 0)
        && forall|i: int| ask_prefix().len() <= i < name.len() ==> name[i] != ('.' as u8)
}

/// Decides whether the watch loop should treat `name` as a request file.
pub fn watch_candidate(name: &Vec<u8>) -> (b: bool)
    ensures
        b == is_watch_candidate(name@),
{
    matches_at_exec(name, &ask_prefix_bytes(), 0)
}

/// Decides whether the initial scan should treat `name` as a request file.
pub fn scan_candidate(name: &Vec<u8>) -> (b: bool)
    ensures
        b == is_scan_candidate(name@),
{
    if !matches_at_exec(name, &ask_prefix_bytes(), 0) {
        return false;
    }
    let mut i: usize = 4;
    while i < name.len()
        invariant
            4 <= i <= name@.len(),
            forall|k: int| 4 <= k < i ==> name@[k] != ('.' as u8),
        decreases name@.len() - i,
    {
        if name[i] == ('.' as u8) {
            return false;
        }
        i = i + 1;
    }
    true
}

// --- what to do with one request file ---

/// The watcher's decision about one request file's contents.
#[derive(Debug)]
pub enum RequestOutcome {
    /// Not a disk-passphrase request; the watcher ignores it and goes on.
    NotDiskRequest,
    /// A disk-passphrase request with a reply socket: respond to it.
    RespondTo { request: Request },
    /// A disk-passphrase request without a usable reply socket: nothing
    /// can be sent, but a disk request was seen.
    MalformedDiskRequest { request: Request },
}

/// The outcome `evaluate_request` owes for file contents `s`.
pub open spec fn outcome_describes(s: Seq<u8>, o: RequestOutcome) -> bool {
    match o {
        RequestOutcome::NotDiskRequest => spec_classification(s) == Classification::Other,
        RequestOutcome::RespondTo { request } => {
            &&& spec_classification(s) == Classification::DiskPassphrase
            &&& spec_socket(s) is Some
            &&& request@ == spec_request(s)
        },
        RequestOutcome::MalformedDiskRequest { request } => {
            &&& spec_classification(s) == Classification::DiskPassphrase
            &&& spec_socket(s) is None
            &&& request@ == spec_request(s)
        },
    }
}

/// Parses one request file's contents and decides what the watcher must do
/// with it: respond to a disk-passphrase request with a reply socket,
/// report one without a socket as malformed, and ignore everything else.
pub fn evaluate_request(content: &Vec<u8>) -> (r: RequestOutcome)
    ensures
        outcome_describes(content@, r),
{
    let (classification, parsed) = parse(content);
    match classification {
        Classification::Other => RequestOutcome::NotDiskRequest,
        Classification::DiskPassphrase => match parsed {
            Some(request) => {
                if request.reply_socket_path.is_some() {
                    RequestOutcome::RespondTo { request }
                } else {
                    RequestOutcome::MalformedDiskRequest { request }
                }
            },
            None => {
                // A disk classification implies a message value, so `parse`
                // always yields a request here; the arm is unreachable.
                proof {
                    assert(spec_message(content@) is Some);
                    assert(false);
                }
                RequestOutcome::NotDiskRequest
            },
        },
    }
}

/// Law: a file classified `Other` can only be ignored.  No outcome that
/// responds, or even reports a malformed disk request, describes such a
/// file, so the responder is never invoked for it.
pub proof fn lemma_other_is_never_answered(s: Seq<u8>, o: RequestOutcome)
    requires
        outcome_describes(s, o),
        spec_classification(s) == Classification::Other,
    ensures
        o is NotDiskRequest,
{
}

/// The single-shot exit rule: the watcher stops after the first
/// disk-passphrase request it sees, whether or not a response could be
/// sent; anything else lets the loop continue.
pub fn should_exit(outcome: &RequestOutcome) -> (b: bool)
    ensures
        b == !(outcome is NotDiskRequest),
{
    match outcome {
        RequestOutcome::NotDiskRequest => false,
        RequestOutcome::RespondTo { .. } => true,
        RequestOutcome::MalformedDiskRequest { .. } => true,
    }
}

// --- the scan over requests that already exist ---

/// A snapshot of one directory entry: its file name and the file's bytes.
#[derive(Debug)]
pub struct AskDirEntry {
    pub name: Vec<u8>,
    pub content: Vec<u8>,
}

/// Index of the first entry the scan must handle: a candidate name whose
/// contents classify as a disk-passphrase request.
pub open spec fn first_hit_from(entries: Seq<AskDirEntry>, i: int) -> Option<int>
    decreases entries.len() - i,
{
    if i < 0 || i >= entries.len() {
        None
    } else if is_scan_candidate(entries[i].name@)
        && spec_classification(entries[i].content@) == Classification::DiskPassphrase {
        Some(i)
    } else {
        first_hit_from(entries, i + 1)
    }
}

/// Index of the first entry of the snapshot the scan must handle.
pub open spec fn first_hit(entries: Seq<AskDirEntry>) -> Option<int> {
    first_hit_from(entries, 0)
}

/// What scanning the existing requests found.
#[derive(Debug)]
pub enum ScanResult {
    /// The first disk-passphrase request, with its position in the
    /// snapshot and the decision about it.  Classification alone gates
    /// this: a malformed disk request is still `Handled`.
    Handled { index: usize, outcome: RequestOutcome },
    /// The snapshot holds no disk-passphrase request.
    NotFound,
}

/// Scans a snapshot of the request directory, in order, for the first
/// candidate entry that classifies as a disk-passphrase request.
pub fn scan_existing(entries: &Vec<AskDirEntry>) -> (r: ScanResult)
    ensures
        match r {
            ScanResult::Handled { index, outcome } => {
                &&& first_hit(entries@) == Some(index as int)
                &&& outcome_describes(entries@[index as int].content@, outcome)
                &&& !(outcome is NotDiskRequest)
            },
            ScanResult::NotFound => first_hit(entries@) is None,
        },
{
    let mut i: usize = 0;
    while i < entries.len()
        invariant
            i <= entries@.len(),
            first_hit(entries@) == first_hit_from(entries@, i as int),
        decreases entries@.len() - i,
    {
        let entry = &entries[i];
        if scan_candidate(&entry.name) {
            let outcome = evaluate_request(&entry.content);
            if should_exit(&outcome) {
                return ScanResult::Handled { index: i, outcome };
            }
        }
        i = i + 1;
    }
    ScanResult::NotFound
}

// --- the timed watch loop's budget ---

/// What one iteration of the watch loop must do.
#[derive(PartialEq, Eq, Structural, Clone, Copy, Debug)]
pub enum TickControl {
    /// The budget is spent: deregister the watch and stop, without
    /// blocking.
    Expired,
    /// Budget remains: poll for events, then sleep one interval.
    Proceed,
}

/// The state of one timed watch loop: how many ticks may still pass
/// before the watcher gives up.  The watch handle itself is owned by the
/// surroundings.
pub struct WatchSession {
    pub remaining_ticks: u64,
}

impl WatchSession {
    /// Opens a session with the caller-supplied tick budget.
    pub fn new(tick_budget: u64) -> (s: Self)
        ensures
            s.remaining_ticks == tick_budget,
    {
        WatchSession { remaining_ticks: tick_budget }
    }

    /// One iteration decision.  With the budget spent the loop must stop
    /// at once — a session opened with budget zero expires on its first
    /// tick, before any waiting.  Otherwise one tick is consumed.
    pub fn tick(&mut self) -> (r: TickControl)
        ensures
            old(self).remaining_ticks == 0
                ==> r == TickControl::Expired && final(self).remaining_ticks == 0,
            old(self).remaining_ticks > 0
                ==> r == TickControl::Proceed
                    && final(self).remaining_ticks == old(self).remaining_ticks - 1,
    {
        if self.remaining_ticks == 0 {
            TickControl::Expired
        } else {
            self.remaining_ticks = self.remaining_ticks - 1;
            TickControl::Proceed
        }
    }
}

} // verus!
