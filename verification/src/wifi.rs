//! Wi-Fi: reading the network list that NetworkManager prints, and the
//! commands that switch the radio, join a network and forget one.

use vstd::prelude::*;
use crate::text::{Separator, split_by, lines_of, lines, split};

verus! {

/// The shell pipeline that lists the networks in sight, one
/// `ACTIVE:SSID` line per network, without empty lines or duplicates.
pub const WIFI_LIST_SCRIPT: &'static str = "nmcli -t -f ACTIVE,SSID device wifi list | sed '/^$/d' | sort -u";

/// The fields of one `ACTIVE:SSID` line.
pub open spec fn wifi_fields(line: Seq<char>) -> Seq<Seq<char>> {
    split_by(line, Separator::Char(':'))
}

/// A line that holds exactly two fields.
pub open spec fn is_wifi_entry(line: Seq<char>) -> bool {
    wifi_fields(line).len() == 2
}

/// An entry whose first field reads `yes`: the network in use.
pub open spec fn is_active_entry(line: Seq<char>) -> bool {
    is_wifi_entry(line) && wifi_fields(line)[0] == seq!['y', 'e', 's']
}

/// Over `lines`, in order: the SSID of the last entry in use, if any, and the
/// SSIDs of the other entries.
pub open spec fn scan_wifi(lines: Seq<Seq<char>>) -> (Option<Seq<char>>, Seq<Seq<char>>)
    decreases lines.len(),
{
    if lines.len() == 0 {
        (None, Seq::empty())
    } else {
        let (connected, others) = scan_wifi(lines.drop_last());
        let line = lines.last();
        if !is_wifi_entry(line) {
            (connected, others)
        } else if is_active_entry(line) {
            (Some(wifi_fields(line)[1]), others)
        } else {
            (connected, others.push(wifi_fields(line)[1]))
        }
    }
}

/// The networks to offer: the one in use first, when there is one, then the
/// others in the order in which they were listed.
pub open spec fn wifi_network_list(output: Seq<char>) -> Seq<Seq<char>> {
    let (connected, others) = scan_wifi(lines_of(output));
    match connected {
        Some(c) => seq![c] + others,
        None => others,
    }
}

/// The networks listed in `output` (what `WIFI_LIST_SCRIPT` prints), the one
/// in use first.
pub fn wifi_networks(output: &str) -> (res: Vec<String>)
    ensures
        res.deep_view() == wifi_network_list(output@),
{
    let all = lines(output);
    let ghost ls = all.deep_view();
    let yes = String::from_str("yes");
    proof {
        reveal_strlit("yes");
    }
    assert(yes@ =~= seq!['y', 'e', 's']);
    let mut connected: Option<String> = None;
    let mut others: Vec<String> = Vec::new();
    let mut k: usize = 0;
    while k < all.len()
        invariant
            k <= all.len(),
            ls == all.deep_view(),
            ls == lines_of(output@),
            yes@ == seq!['y', 'e', 's'],
            scan_wifi(ls.take(k as int)) == (
            match connected {
                Some(c) => Some(c@),
                None => None::<Seq<char>>,
            },
            others.deep_view()),
        decreases all.len() - k,
    {
        assert(ls.take(k + 1).drop_last() =~= ls.take(k as int));
        assert(ls.take(k + 1).last() == ls[k as int]);
        let parts = split(all[k].as_str(), Separator::Char(':'));
        if parts.len() == 2 {
            let ssid = parts[1].clone();
            if parts[0] == yes {
                connected = Some(ssid);
            } else {
                let ghost prev = others.deep_view();
                others.push(ssid);
                assert(others.deep_view() =~= prev.push(wifi_fields(ls[k as int])[1]));
            }
        }
        k = k + 1;
    }
    assert(ls.take(all.len() as int) =~= ls);
    match connected {
        Some(c) => {
            let ghost prev = others.deep_view();
            others.insert(0, c);
            assert(others.deep_view() =~= seq![c@] + prev);
        },
        None => {},
    }
    others
}


/// Over `lines`, the network in use is the SSID of the last entry that is
/// marked in use.
pub proof fn lemma_scan_finds_last_active(lines: Seq<Seq<char>>, i: int)
    requires
        0 <= i < lines.len(),
        is_active_entry(lines[i]),
        forall|j: int| i < j < lines.len() ==> !is_active_entry(#[trigger] lines[j]),
    ensures
        scan_wifi(lines).0 == Some(wifi_fields(lines[i])[1]),
    decreases lines.len(),
{
    if i < lines.len() - 1 {
        let d = lines.drop_last();
        assert forall|j: int| i < j < d.len() implies !is_active_entry(#[trigger] d[j]) by {
            assert(d[j] == lines[j]);
        }
        lemma_scan_finds_last_active(d, i);
        assert(!is_active_entry(lines[lines.len() - 1]));
    } else {
        assert(lines.last() == lines[i]);
    }
}

/// When some listed network is marked in use, the offered list starts with
/// it; when several are, with the last of them.
pub proof fn lemma_connected_network_first(output: Seq<char>, i: int)
    requires
        0 <= i < lines_of(output).len(),
        is_active_entry(lines_of(output)[i]),
        forall|j: int|
            i < j < lines_of(output).len() ==> !is_active_entry(#[trigger] lines_of(output)[j]),
    ensures
        wifi_network_list(output).len() >= 1,
        wifi_network_list(output)[0] == wifi_fields(lines_of(output)[i])[1],
{
    lemma_scan_finds_last_active(lines_of(output), i);
}

/// An entry for a network that is not in use.
pub open spec fn is_idle_entry(line: Seq<char>) -> bool {
    is_wifi_entry(line) && !is_active_entry(line)
}

/// The SSID of an entry: its second field.
pub open spec fn ssid_of(line: Seq<char>) -> Seq<char> {
    wifi_fields(line)[1]
}

/// The lines that are entries for networks not in use, in order.
pub open spec fn idle_entries(lines: Seq<Seq<char>>) -> Seq<Seq<char>> {
    lines.filter(|l: Seq<char>| is_idle_entry(l))
}

/// Some line is an entry for the network in use.
pub open spec fn some_active(lines: Seq<Seq<char>>) -> bool {
    exists|i: int| 0 <= i < lines.len() && is_active_entry(#[trigger] lines[i])
}

/// Over `lines`, the networks not in use are the SSIDs of the entries not in
/// use, each of them, in the order listed.
pub proof fn lemma_scan_others(lines: Seq<Seq<char>>)
    ensures
        scan_wifi(lines).1 == idle_entries(lines).map_values(|l: Seq<char>| ssid_of(l)),
    decreases lines.len(),
{
    reveal(Seq::filter);
    if lines.len() > 0 {
        let d = lines.drop_last();
        lemma_scan_others(d);
        let f = |l: Seq<char>| ssid_of(l);
        if is_idle_entry(lines.last()) {
            assert(idle_entries(lines) == idle_entries(d).push(lines.last()));
            assert(idle_entries(d).push(lines.last()).map_values(f) =~= idle_entries(d).map_values(
                f,
            ).push(ssid_of(lines.last())));
        } else {
            assert(idle_entries(lines) == idle_entries(d));
        }
    } else {
        assert(idle_entries(lines).map_values(|l: Seq<char>| ssid_of(l)) =~= Seq::<Seq<char>>::empty());
    }
}

proof fn lemma_scan_connected(lines: Seq<Seq<char>>)
    ensures
        scan_wifi(lines).0 is Some <==> some_active(lines),
    decreases lines.len(),
{
    if lines.len() > 0 {
        let d = lines.drop_last();
        lemma_scan_connected(d);
        if some_active(d) {
            let i = choose|i: int| 0 <= i < d.len() && is_active_entry(#[trigger] d[i]);
            assert(lines[i] == d[i]);
        }
        if some_active(lines) && !is_active_entry(lines.last()) {
            let i = choose|i: int| 0 <= i < lines.len() && is_active_entry(#[trigger] lines[i]);
            assert(i < lines.len() - 1);
            assert(d[i] == lines[i]);
        }
        if is_active_entry(lines.last()) {
            assert(is_active_entry(lines[lines.len() - 1]));
        }
    }
}

/// Every network that is listed and not in use is offered, and nothing more
/// than those and the one in use: the list is as long as the entries not in
/// use, one longer when some network is in use.
pub proof fn lemma_every_idle_network_offered(output: Seq<char>)
    ensures
        wifi_network_list(output).len() == idle_entries(lines_of(output)).len() + (if some_active(
            lines_of(output),
        ) {
            1int
        } else {
            0int
        }),
        forall|i: int|
            0 <= i < lines_of(output).len() && is_idle_entry(#[trigger] lines_of(output)[i])
                ==> wifi_network_list(output).contains(ssid_of(lines_of(output)[i])),
{
    let ls = lines_of(output);
    lemma_scan_others(ls);
    lemma_scan_connected(ls);
    let idle = idle_entries(ls);
    let f = |l: Seq<char>| ssid_of(l);
    let others = idle.map_values(f);
    let r = wifi_network_list(output);
    assert forall|i: int| 0 <= i < ls.len() && is_idle_entry(#[trigger] ls[i]) implies r.contains(
        ssid_of(ls[i]),
    ) by {
        ls.lemma_filter_contains(|l: Seq<char>| is_idle_entry(l), i);
        let j = choose|j: int| 0 <= j < idle.len() && idle[j] == ls[i];
        assert(others[j] == ssid_of(ls[i]));
        match scan_wifi(ls).0 {
            Some(c) => {
                assert(r[j + 1] == others[j]);
            },
            None => {
                assert(r[j] == others[j]);
            },
        }
    }
}

/// After the network in use, if there is one, the list offers the networks
/// not in use, every one of them, in the order in which they were listed.
pub proof fn lemma_idle_networks_in_order(output: Seq<char>)
    ensures
        wifi_network_list(output).skip(
            if some_active(lines_of(output)) {
                1int
            } else {
                0int
            },
        ) == idle_entries(lines_of(output)).map_values(|l: Seq<char>| ssid_of(l)),
{
    let ls = lines_of(output);
    lemma_scan_others(ls);
    lemma_scan_connected(ls);
    let r = wifi_network_list(output);
    let others = scan_wifi(ls).1;
    match scan_wifi(ls).0 {
        Some(c) => {
            assert(r.skip(1) =~= others);
        },
        None => {
            assert(r.skip(0) =~= others);
        },
    }
}

/// The command that switches the Wi-Fi radio on or off.
pub fn wifi_radio_script(enable: bool) -> (res: String)
    ensures
        res@ == "nmcli radio wifi "@ + (if enable {
            "on"@
        } else {
            "off"@
        }),
{
    let mut res = String::from_str("nmcli radio wifi ");
    if enable {
        res.append("on");
    } else {
        res.append("off");
    }
    res
}

/// The command line that joins the network `name`: the program `nmcli` and
/// its arguments, each handed over as it is (no shell reads them), with the
/// password when there is one.
pub fn wifi_connect_command(name: &str, password: Option<&str>) -> (res: Vec<String>)
    ensures
        res.deep_view() == match password {
            None => seq!["nmcli"@, "dev"@, "wifi"@, "connect"@, name@],
            Some(p) => seq!["nmcli"@, "dev"@, "wifi"@, "connect"@, name@, "password"@, p@],
        },
{
    let mut res: Vec<String> = Vec::new();
    res.push(String::from_str("nmcli"));
    res.push(String::from_str("dev"));
    res.push(String::from_str("wifi"));
    res.push(String::from_str("connect"));
    res.push(String::from_str(name));
    match password {
        None => {
            assert(res.deep_view() =~= seq!["nmcli"@, "dev"@, "wifi"@, "connect"@, name@]);
        },
        Some(p) => {
            res.push(String::from_str("password"));
            res.push(String::from_str(p));
            assert(res.deep_view() =~= seq![
                "nmcli"@,
                "dev"@,
                "wifi"@,
                "connect"@,
                name@,
                "password"@,
                p@,
            ]);
        },
    }
    res
}

/// What one click on "Connect" for a Wi-Fi network has reached.
#[derive(Clone, Copy, Debug, PartialEq, Eq)]
pub enum ConnectStage {
    /// Nothing under way.
    Idle,
    /// Joining without a password was started.
    TryingOpen,
    /// That failed; the password field was shown and is being read.
    ReadingPassword,
    /// Joining with the typed password was started.
    TryingPassword,
}

/// What the panel reports back to the Wi-Fi connect flow.
#[derive(Debug, PartialEq, Eq)]
pub enum ConnectEvent {
    /// The "Connect" button was clicked.
    Clicked,
    /// The last join command finished, successfully or not.
    Joined(bool),
    /// The text of the password field.
    PasswordRead(String),
}

/// What the panel must do next.
#[derive(Debug, PartialEq, Eq)]
pub enum ConnectAction {
    /// Run the join command, with the given password if any.
    Join(Option<String>),
    /// Show the password field and report its text.
    ReadPassword,
    /// Give the password field the focus and stop.
    FocusPassword,
    /// Show the network as connected and close the list; also remove the
    /// password field when the flag is set.
    ShowConnected(bool),
    /// Nothing to do.
    Nothing,
}

/// The next stage and action of the connect flow, as a table.
pub open spec fn connect_next(stage: ConnectStage, event: ConnectEvent) -> (
    ConnectStage,
    ConnectAction,
) {
    match (stage, event) {
        (ConnectStage::Idle, ConnectEvent::Clicked) => (
            ConnectStage::TryingOpen,
            ConnectAction::Join(None),
        ),
        (ConnectStage::TryingOpen, ConnectEvent::Joined(true)) => (
            ConnectStage::Idle,
            ConnectAction::ShowConnected(false),
        ),
        (ConnectStage::TryingOpen, ConnectEvent::Joined(false)) => (
            ConnectStage::ReadingPassword,
            ConnectAction::ReadPassword,
        ),
        (ConnectStage::ReadingPassword, ConnectEvent::PasswordRead(p)) => if p@.len() == 0 {
            (ConnectStage::Idle, ConnectAction::FocusPassword)
        } else {
            (ConnectStage::TryingPassword, ConnectAction::Join(Some(p)))
        },
        (ConnectStage::TryingPassword, ConnectEvent::Joined(true)) => (
            ConnectStage::Idle,
            ConnectAction::ShowConnected(true),
        ),
        (ConnectStage::TryingPassword, ConnectEvent::Joined(false)) => (
            ConnectStage::Idle,
            ConnectAction::FocusPassword,
        ),
        (s, _) => (s, ConnectAction::Nothing),
    }
}

/// A password is asked for only after joining without one failed.
pub proof fn lemma_password_after_open_failure(stage: ConnectStage, event: ConnectEvent)
    requires
        connect_next(stage, event).1 == ConnectAction::ReadPassword,
    ensures
        stage == ConnectStage::TryingOpen,
        event == ConnectEvent::Joined(false),
{
}

/// Every non-empty password that is read is used to join, exactly as typed.
pub proof fn lemma_typed_password_is_tried(p: String)
    requires
        p@.len() > 0,
    ensures
        connect_next(ConnectStage::ReadingPassword, ConnectEvent::PasswordRead(p)) == (
            ConnectStage::TryingPassword,
            ConnectAction::Join(Some(p)),
        ),
{
}

/// One step of the Wi-Fi connect flow: a click first tries to join without a
/// password; only when that fails is the password field read, an empty
/// password only takes the focus back, and a failed join with a password
/// also gives the field the focus.
pub fn connect_step(stage: ConnectStage, event: ConnectEvent) -> (res: (ConnectStage, ConnectAction))
    ensures
        res == connect_next(stage, event),
        res.1 matches ConnectAction::Join(Some(p)) ==> p@.len() > 0 && stage
            == ConnectStage::ReadingPassword,
        event matches ConnectEvent::PasswordRead(p) ==> (stage == ConnectStage::ReadingPassword
            && p@.len() > 0 ==> res.0 == ConnectStage::TryingPassword && res.1 == ConnectAction::Join(
            Some(p),
        )),
{
    match (stage, event) {
        (ConnectStage::Idle, ConnectEvent::Clicked) => (
            ConnectStage::TryingOpen,
            ConnectAction::Join(None),
        ),
        (ConnectStage::TryingOpen, ConnectEvent::Joined(ok)) => if ok {
            (ConnectStage::Idle, ConnectAction::ShowConnected(false))
        } else {
            (ConnectStage::ReadingPassword, ConnectAction::ReadPassword)
        },
        (ConnectStage::ReadingPassword, ConnectEvent::PasswordRead(p)) => if p.as_str().is_empty() {
            (ConnectStage::Idle, ConnectAction::FocusPassword)
        } else {
            (ConnectStage::TryingPassword, ConnectAction::Join(Some(p)))
        },
        (ConnectStage::TryingPassword, ConnectEvent::Joined(ok)) => if ok {
            (ConnectStage::Idle, ConnectAction::ShowConnected(true))
        } else {
            (ConnectStage::Idle, ConnectAction::FocusPassword)
        },
        (s, _) => (s, ConnectAction::Nothing),
    }
}

} // verus!
