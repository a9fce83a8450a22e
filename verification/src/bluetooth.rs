//! Bluetooth: the power switch and its reading, the scan for devices, the
//! device list that `bluetoothctl devices` prints, and connecting.

use vstd::prelude::*;
use crate::text::{
    Separator, free_of, is_white_space, is_word, lemma_filter_all, lemma_split_by_around, lemma_split_by_single,
    lemma_split_join, lemma_words_are_words, split_by, join_from, join_with_space, lines, lines_of, same_text, split_whitespace, trim, trimmed, words,
};

verus! {

/// The shell pipeline that prints the controller's power state (`on` or `off`).
pub const POWER_QUERY_SCRIPT: &'static str = "bluetoothctl show | grep PowerState | awk {'print $2'}";

/// Starts the scan for devices.
pub const SCAN_ON_SCRIPT: &'static str = "bluetoothctl scan on";

/// Stops the scan for devices.
pub const SCAN_OFF_SCRIPT: &'static str = "bluetoothctl scan off";

/// Lists the devices that are known, one `Device <address> <name>` line each.
pub const DEVICES_SCRIPT: &'static str = "bluetoothctl devices";

/// How long the scan runs before the devices are listed, in seconds.
pub const SCAN_SECONDS: u64 = 5;

/// The command that powers the controller on or off.
pub fn power_script(enable: bool) -> (res: String)
    ensures
        res@ == "bluetoothctl "@ + (if enable {
            "power on"@
        } else {
            "power off"@
        }),
{
    let mut res = String::from_str("bluetoothctl ");
    if enable {
        res.append("power on");
    } else {
        res.append("power off");
    }
    res
}

/// Whether the power query reports the controller as on: the query must have
/// succeeded and printed `on`, white space around it aside.
pub fn powered_from(succeeded: bool, output: &str) -> (res: bool)
    ensures
        res == (succeeded && trimmed(output@) == "on"@),
{
    if succeeded {
        let t = trim(output);
        same_text(t.as_str(), "on")
    } else {
        false
    }
}

/// The entry of a line whose words are `Device <address> <name...>`:
/// `<address> - <name>`, the name's words joined by single spaces.
pub open spec fn device_entry(line: Seq<char>) -> Option<Seq<char>> {
    let w = words(line);
    if w.len() >= 3 && w[0] == "Device"@ {
        Some(w[1] + " - "@ + join_with_space(w.skip(2)))
    } else {
        None
    }
}

/// Over `lines`, in order, the entries of the device lines.
pub open spec fn device_entries(lines: Seq<Seq<char>>) -> Seq<Seq<char>>
    decreases lines.len(),
{
    if lines.len() == 0 {
        Seq::empty()
    } else {
        let prev = device_entries(lines.drop_last());
        match device_entry(lines.last()) {
            Some(e) => prev.push(e),
            None => prev,
        }
    }
}

/// The entry for one line of the device list, if the line names a device.
pub fn device_line_entry(line: &str) -> (res: Option<String>)
    ensures
        match res {
            Some(e) => device_entry(line@) == Some(e@),
            None => device_entry(line@) is None,
        },
        names_device(line@) ==> (res matches Some(e) && e@ == device_text(line@)),
        !names_device(line@) ==> res is None,
{
    let w = split_whitespace(line);
    let ghost ws = w.deep_view();
    if w.len() >= 3 && same_text(w[0].as_str(), "Device") {
        let mut e = w[1].clone();
        e.append(" - ");
        let name = join_from(&w, 2);
        e.append(name.as_str());
        Some(e)
    } else {
        proof {
            if ws.len() >= 3 {
                assert(ws[0] == w[0]@);
            }
        }
        None
    }
}

/// A line whose words are `Device`, an address and at least one word of a
/// name.
pub open spec fn names_device(line: Seq<char>) -> bool {
    words(line).len() >= 3 && words(line)[0] == "Device"@
}

/// The text offered for a device line: its address, ` - `, and all the words
/// of the name, however many, joined by single spaces.
pub open spec fn device_text(line: Seq<char>) -> Seq<char> {
    words(line)[1] + " - "@ + join_with_space(words(line).skip(2))
}

/// The lines that name devices, in order.
pub open spec fn device_lines(lines: Seq<Seq<char>>) -> Seq<Seq<char>> {
    lines.filter(|l: Seq<char>| names_device(l))
}

/// Every line that names a device gives an entry, whatever the length of
/// the name, and no other line does.
pub proof fn lemma_device_entry_of_device_line(line: Seq<char>)
    ensures
        names_device(line) ==> device_entry(line) == Some(device_text(line)),
        !names_device(line) ==> device_entry(line) is None,
{
}

/// Reading two pieces of output line after line gives the entries of the
/// first followed by those of the second.
pub proof fn lemma_device_entries_append(a: Seq<Seq<char>>, b: Seq<Seq<char>>)
    ensures
        device_entries(a + b) == device_entries(a) + device_entries(b),
    decreases b.len(),
{
    if b.len() == 0 {
        assert(a + b =~= a);
        assert(device_entries(a) + device_entries(b) =~= device_entries(a));
    } else {
        lemma_device_entries_append(a, b.drop_last());
        assert((a + b).drop_last() =~= a + b.drop_last());
        assert((a + b).last() == b.last());
        match device_entry(b.last()) {
            Some(e) => {
                assert(device_entries(a + b) =~= device_entries(a) + device_entries(b));
            },
            None => {},
        }
    }
}

/// The entries are the texts of the device lines, each of them, in the
/// order listed.
pub proof fn lemma_device_entries_are_device_texts(lines: Seq<Seq<char>>)
    ensures
        device_entries(lines) == device_lines(lines).map_values(|l: Seq<char>| device_text(l)),
    decreases lines.len(),
{
    reveal(Seq::filter);
    let f = |l: Seq<char>| device_text(l);
    if lines.len() > 0 {
        let d = lines.drop_last();
        lemma_device_entries_are_device_texts(d);
        lemma_device_entry_of_device_line(lines.last());
        if names_device(lines.last()) {
            assert(device_lines(lines) == device_lines(d).push(lines.last()));
            assert(device_lines(d).push(lines.last()).map_values(f) =~= device_lines(d).map_values(
                f,
            ).push(device_text(lines.last())));
        } else {
            assert(device_lines(lines) == device_lines(d));
        }
    } else {
        assert(device_lines(lines).map_values(f) =~= Seq::<Seq<char>>::empty());
    }
}

/// Every device line gives its entry, and there are exactly as many entries
/// as device lines.
pub proof fn lemma_every_device_listed(lines: Seq<Seq<char>>)
    ensures
        device_entries(lines).len() == device_lines(lines).len(),
        forall|i: int|
            0 <= i < lines.len() && names_device(#[trigger] lines[i]) ==> device_entries(
                lines,
            ).contains(device_text(lines[i])),
{
    lemma_device_entries_are_device_texts(lines);
    let dl = device_lines(lines);
    let f = |l: Seq<char>| device_text(l);
    assert forall|i: int| 0 <= i < lines.len() && names_device(#[trigger] lines[i]) implies device_entries(
        lines,
    ).contains(device_text(lines[i])) by {
        lines.lemma_filter_contains(|l: Seq<char>| names_device(l), i);
        let j = choose|j: int| 0 <= j < dl.len() && dl[j] == lines[i];
        assert(dl.map_values(f)[j] == device_text(lines[i]));
    }
}

/// The devices that `DEVICES_SCRIPT` printed, one `<address> - <name>` entry
/// per `Device` line, in order.
pub fn device_list(output: &str) -> (res: Vec<String>)
    ensures
        res.deep_view() == device_entries(lines_of(output@)),
{
    let all = lines(output);
    let ghost ls = all.deep_view();
    let mut res: Vec<String> = Vec::new();
    let mut k: usize = 0;
    while k < all.len()
        invariant
            k <= all.len(),
            ls == all.deep_view(),
            ls == lines_of(output@),
            res.deep_view() == device_entries(ls.take(k as int)),
        decreases all.len() - k,
    {
        assert(ls.take(k + 1).drop_last() =~= ls.take(k as int));
        assert(ls.take(k + 1).last() == ls[k as int]);
        let ghost prev = res.deep_view();
        match device_line_entry(all[k].as_str()) {
            Some(e) => {
                res.push(e);
                assert(res.deep_view() =~= prev.push(device_entry(ls[k as int])->0));
            },
            None => {},
        }
        k = k + 1;
    }
    assert(ls.take(all.len() as int) =~= ls);
    res
}

/// The command line that connects to the device `address`: the program
/// `bluetoothctl` and its arguments, each handed over as it is.
pub fn connect_command(address: &str) -> (res: Vec<String>)
    ensures
        res.deep_view() == seq!["bluetoothctl"@, "connect"@, address@],
{
    let mut res: Vec<String> = Vec::new();
    res.push(String::from_str("bluetoothctl"));
    res.push(String::from_str("connect"));
    res.push(String::from_str(address));
    assert(res.deep_view() =~= seq!["bluetoothctl"@, "connect"@, address@]);
    res
}

/// What a row of the device list shows for one entry: the entry's third word
/// (the first word of the device's name) and its first word (the address),
/// when the entry has at least three words.
pub open spec fn row_labels(entry: Seq<char>) -> Option<(Seq<char>, Seq<char>)> {
    let w = words(entry);
    if w.len() >= 3 {
        Some((w[2], w[0]))
    } else {
        None
    }
}

/// The name label and the address label of a device row.
pub fn device_row(entry: &str) -> (res: Option<(String, String)>)
    ensures
        match res {
            Some((name, address)) => row_labels(entry@) == Some((name@, address@)),
            None => row_labels(entry@) is None,
        },
{
    let w = split_whitespace(entry);
    if w.len() >= 3 {
        Some((w[2].clone(), w[0].clone()))
    } else {
        None
    }
}

/// The row made from a device's entry in the list shows the first word of
/// the device's name and the device's address.
pub proof fn lemma_row_of_device_entry(line: Seq<char>)
    requires
        device_entry(line) is Some,
    ensures
        row_labels(device_entry(line)->0) == Some((words(line)[2], words(line)[1])),
{
    let w = words(line);
    lemma_words_are_words(line);
    let a = w[1];
    let names = w.skip(2);
    assert forall|k: int| 0 <= k < names.len() implies free_of(#[trigger] names[k], Separator::WhiteSpace) && is_word(names[k]) by {
        assert(names[k] == w[k + 2]);
    }
    let dash = seq!['-'];
    let e = device_entry(line)->0;
    let j = join_with_space(names);
    reveal_strlit(" - ");
    assert(e =~= a.push(' ') + (dash.push(' ') + j));
    assert(is_white_space(' '));
    lemma_split_by_around(a, ' ', dash.push(' ') + j, Separator::WhiteSpace);
    lemma_split_by_around(dash, ' ', j, Separator::WhiteSpace);
    assert(free_of(a, Separator::WhiteSpace));
    lemma_split_by_single(a, Separator::WhiteSpace);
    assert(!is_white_space('-'));
    assert(free_of(dash, Separator::WhiteSpace));
    lemma_split_by_single(dash, Separator::WhiteSpace);
    lemma_split_join(names);
    let pieces = seq![a] + (seq![dash] + names);
    assert(split_by(e, Separator::WhiteSpace) == pieces);
    assert(is_word(a));
    assert forall|k: int| 0 <= k < pieces.len() implies #[trigger] is_word(pieces[k]) by {
        if k >= 2 {
            assert(pieces[k] == names[k - 2]);
        }
    }
    lemma_filter_all(pieces, |x: Seq<char>| is_word(x));
    assert(words(e) == pieces);
    assert(pieces[2] == names[0]);
}


/// Where the search for devices stands.
#[derive(Clone, Copy, Debug, PartialEq, Eq)]
pub enum ScanStage {
    /// No search under way.
    Idle,
    /// The controller is being powered on.
    PoweringOn,
    /// The scan is being started.
    StartingScan,
    /// The scan runs; the panel waits.
    Scanning,
    /// The scan is being stopped.
    StoppingScan,
    /// The known devices are being listed.
    Listing,
}

/// What the panel reports back to the search.
#[derive(Debug, PartialEq, Eq)]
pub enum ScanEvent {
    /// The device list is wanted.
    Start,
    /// The last command finished: whether it succeeded, and what it printed.
    Finished(bool, String),
    /// The wait is over.
    Slept,
}

/// What the panel must do next.
#[derive(Debug, PartialEq, Eq)]
pub enum ScanAction {
    /// Run this shell script and report how it finished.
    Run(String),
    /// Wait this many seconds and report it.
    Sleep(u64),
    /// The search is over; these are the device entries to offer.
    Report(Vec<String>),
    /// Nothing to do.
    Nothing,
}

/// One step of the search for devices: power the controller on, start a
/// scan, wait, stop the scan and list the devices. If powering on or
/// starting the scan fails, the search ends with no device; how stopping the
/// scan and listing the devices end does not matter.
pub fn scan_step(stage: ScanStage, event: ScanEvent) -> (res: (ScanStage, ScanAction))
    ensures
        match (stage, event) {
            (ScanStage::Idle, ScanEvent::Start) => res.0 == ScanStage::PoweringOn && (
            res.1 matches ScanAction::Run(s) && s@ == "bluetoothctl power on"@),
            (ScanStage::PoweringOn, ScanEvent::Finished(ok, _)) => if ok {
                res.0 == ScanStage::StartingScan && (res.1 matches ScanAction::Run(s) && s@
                    == SCAN_ON_SCRIPT@)
            } else {
                res.0 == ScanStage::Idle && (res.1 matches ScanAction::Report(v) && v@.len() == 0)
            },
            (ScanStage::StartingScan, ScanEvent::Finished(ok, _)) => if ok {
                res.0 == ScanStage::Scanning && res.1 == ScanAction::Sleep(SCAN_SECONDS)
            } else {
                res.0 == ScanStage::Idle && (res.1 matches ScanAction::Report(v) && v@.len() == 0)
            },
            (ScanStage::Scanning, ScanEvent::Slept) => res.0 == ScanStage::StoppingScan && (
            res.1 matches ScanAction::Run(s) && s@ == SCAN_OFF_SCRIPT@),
            (ScanStage::StoppingScan, ScanEvent::Finished(_, _)) => res.0 == ScanStage::Listing && (
            res.1 matches ScanAction::Run(s) && s@ == DEVICES_SCRIPT@),
            (ScanStage::Listing, ScanEvent::Finished(_, out)) => res.0 == ScanStage::Idle && (
            res.1 matches ScanAction::Report(v) && v.deep_view() == device_entries(
                lines_of(out@),
            )),
            _ => res.0 == stage && res.1 == ScanAction::Nothing,
        },
{
    match (stage, event) {
        (ScanStage::Idle, ScanEvent::Start) => {
            let script = power_script(true);
            proof {
                reveal_strlit("bluetoothctl ");
                reveal_strlit("power on");
                reveal_strlit("bluetoothctl power on");
                assert(script@ =~= "bluetoothctl power on"@);
            }
            (ScanStage::PoweringOn, ScanAction::Run(script))
        },
        (ScanStage::PoweringOn, ScanEvent::Finished(ok, _)) => if ok {
            (ScanStage::StartingScan, ScanAction::Run(String::from_str(SCAN_ON_SCRIPT)))
        } else {
            (ScanStage::Idle, ScanAction::Report(Vec::new()))
        },
        (ScanStage::StartingScan, ScanEvent::Finished(ok, _)) => if ok {
            (ScanStage::Scanning, ScanAction::Sleep(SCAN_SECONDS))
        } else {
            (ScanStage::Idle, ScanAction::Report(Vec::new()))
        },
        (ScanStage::Scanning, ScanEvent::Slept) => (
            ScanStage::StoppingScan,
            ScanAction::Run(String::from_str(SCAN_OFF_SCRIPT)),
        ),
        (ScanStage::StoppingScan, ScanEvent::Finished(_, _)) => (
            ScanStage::Listing,
            ScanAction::Run(String::from_str(DEVICES_SCRIPT)),
        ),
        (ScanStage::Listing, ScanEvent::Finished(_, out)) => (
            ScanStage::Idle,
            ScanAction::Report(device_list(out.as_str())),
        ),
        (s, _) => (s, ScanAction::Nothing),
    }
}

} // verus!
