//! The text the monitor's console shows: duration rendering, the lines
//! for a status snapshot and a lifecycle state, and the mapping from
//! keys to the one signal the current state accepts.
use vstd::prelude::*;

use crate::account_manager::{Status, SystemStatus};
use crate::ip::{ip_text, ip_to_string, IpAddr};
use crate::monitor::State;
use crate::numfmt::{dec_str, u64_to_string};

verus! {

/// The named parts of a duration that are shown: whole days, leftover
/// hours, leftover minutes — largest first, zero parts left out.
pub open spec fn duration_fragments(secs: nat) -> Seq<Seq<char>> {
    let minutes = (secs / 60) % 60;
    let hours = (secs / 3600) % 24;
    let days = secs / 86400;
    (if days > 0 {
        seq![dec_str(days as nat) + " days"@]
    } else {
        Seq::empty()
    }) + (if hours > 0 {
        seq![dec_str(hours as nat) + " hours"@]
    } else {
        Seq::empty()
    }) + (if minutes > 0 {
        seq![dec_str(minutes as nat) + " minutes"@]
    } else {
        Seq::empty()
    })
}

/// Joins text parts with a comma and a space.
pub open spec fn join_comma(parts: Seq<Seq<char>>) -> Seq<char>
    decreases parts.len(),
{
    if parts.len() == 0 {
        Seq::empty()
    } else if parts.len() == 1 {
        parts[0]
    } else {
        parts[0] + ", "@ + join_comma(parts.drop_first())
    }
}

/// The shown text of a duration: its named parts joined with commas;
/// empty below one minute.
pub open spec fn spec_format_duration(secs: nat) -> Seq<char> {
    join_comma(duration_fragments(secs))
}

/// Appending one more part extends the join by a separator and the
/// part, except onto an empty join.
proof fn lemma_join_push(parts: Seq<Seq<char>>, f: Seq<char>)
    ensures
        join_comma(parts.push(f)) == if parts.len() == 0 {
            f
        } else {
            join_comma(parts) + ", "@ + f
        },
    decreases parts.len(),
{
    let whole = parts.push(f);
    if parts.len() == 0 {
        assert(whole.len() == 1);
        assert(whole[0] == f);
    } else if parts.len() == 1 {
        assert(whole.len() == 2);
        assert(whole.drop_first() =~= seq![f]);
        assert(join_comma(seq![f]) == f);
        assert(whole[0] == parts[0]);
    } else {
        lemma_join_push(parts.drop_first(), f);
        assert(whole.drop_first() =~= parts.drop_first().push(f));
        assert(whole[0] == parts[0]);
        assert(join_comma(parts) == parts[0] + ", "@ + join_comma(parts.drop_first()));
        assert(join_comma(whole) == whole[0] + ", "@ + join_comma(whole.drop_first()));
    }
}

/// Renders a duration of seconds as its days, hours and minutes parts,
/// largest first, joined with commas; below one minute the text is
/// empty.
pub fn format_duration(secs: u64) -> (r: String)
    ensures
        r@ == spec_format_duration(secs as nat),
{
    let minutes = (secs / 60) % 60;
    let hours = (secs / 3600) % 24;
    let days = secs / 86400;
    let mut r = String::new();
    let ghost mut parts: Seq<Seq<char>> = Seq::empty();
    let mut first = true;
    if days > 0 {
        let days_text = u64_to_string(days);
        r.append(days_text.as_str());
        r.append(" days");
        proof {
            parts = parts.push(dec_str(days as nat) + " days"@);
        }
        first = false;
    }
    if hours > 0 {
        if !first {
            r.append(", ");
        }
        let hours_text = u64_to_string(hours);
        r.append(hours_text.as_str());
        r.append(" hours");
        proof {
            lemma_join_push(parts, dec_str(hours as nat) + " hours"@);
            parts = parts.push(dec_str(hours as nat) + " hours"@);
        }
        first = false;
    }
    if minutes > 0 {
        if !first {
            r.append(", ");
        }
        let minutes_text = u64_to_string(minutes);
        r.append(minutes_text.as_str());
        r.append(" minutes");
        proof {
            lemma_join_push(parts, dec_str(minutes as nat) + " minutes"@);
            parts = parts.push(dec_str(minutes as nat) + " minutes"@);
        }
    }
    proof {
        assert(parts =~= duration_fragments(secs as nat));
        assert(r@ =~= join_comma(parts));
    }
    r
}

/// The console lines for the caller's own record: the address, whether
/// the connection is active, and — only while it is — the time it has
/// left.
pub fn status_lines(status: &SystemStatus) -> (r: Vec<String>)
    ensures
        r@.len() == if status.connection.spec_is_active() {
            3int
        } else {
            2int
        },
        r@[0]@ == "IP address: "@ + ip_text(status.ip),
        r@[1]@ == "Connection state: "@ + if status.connection.spec_is_active() {
            "active"@
        } else {
            "inactive"@
        },
        status.connection.spec_is_active() ==> r@[2]@ == "Time left: "@ + spec_format_duration(
            status.connection.time_left as nat,
        ),
{
    let mut r: Vec<String> = Vec::new();
    let mut line = String::from_str("IP address: ");
    let ip_str = ip_to_string(&status.ip);
    line.append(ip_str.as_str());
    r.push(line);
    let mut state_line = String::from_str("Connection state: ");
    if status.connection.is_active() {
        state_line.append("active");
    } else {
        state_line.append("inactive");
    }
    r.push(state_line);
    if status.connection.is_active() {
        let mut left_line = String::from_str("Time left: ");
        let left = format_duration(status.connection.time_left);
        left_line.append(left.as_str());
        r.push(left_line);
    }
    r
}

/// The console line for a lifecycle state.
pub fn state_line(state: &State) -> (r: String)
    ensures
        match state {
            State::Suspended { duration_secs } => r@ == "Suspended for "@ + dec_str(
                *duration_secs as nat,
            ) + "s"@,
            State::CheckingStatus => r@ == "Checking status"@,
            State::Approving(ip) => r@ == "Approving IP "@ + ip_text(*ip),
            State::Error { message } => r@ == message@,
        },
{
    match state {
        State::Suspended { duration_secs } => {
            let mut r = String::from_str("Suspended for ");
            let secs_text = u64_to_string(*duration_secs);
            r.append(secs_text.as_str());
            r.append("s");
            r
        },
        State::CheckingStatus => String::from_str("Checking status"),
        State::Approving(ip) => {
            let mut r = String::from_str("Approving IP ");
            let ip_str = ip_to_string(ip);
            r.append(ip_str.as_str());
            r
        },
        State::Error { message } => message.clone(),
    }
}

/// The control hints a state offers: quit and wake while suspended,
/// quit and retry while parked on an error, nothing otherwise.
pub fn control_lines(state: &State) -> (r: Vec<String>)
    ensures
        match state {
            State::Suspended { .. } => r@.len() == 2 && r@[0]@ == "q | Q -> Quit monitor"@
                && r@[1]@ == "w | W -> Wakeup monitor"@,
            State::Error { .. } => r@.len() == 2 && r@[0]@ == "q | Q -> Quit monitor"@ && r@[1]@
                == "r | R -> Attempt to retry and recover"@,
            _ => r@.len() == 0,
        },
{
    let mut r: Vec<String> = Vec::new();
    match state {
        State::Suspended { .. } => {
            r.push(String::from_str("q | Q -> Quit monitor"));
            r.push(String::from_str("w | W -> Wakeup monitor"));
        },
        State::Error { .. } => {
            r.push(String::from_str("q | Q -> Quit monitor"));
            r.push(String::from_str("r | R -> Attempt to retry and recover"));
        },
        _ => {},
    }
    r
}

/// A key the console reader understands.
#[derive(Debug, Clone, Copy, PartialEq, Eq, Structural)]
pub enum KeyInput {
    Quit,
    Wakeup,
    Retry,
}

/// The key bindings: `q` quits, `w` wakes, `r` retries, either case;
/// every other key means nothing.
pub fn key_input_of(c: char) -> (r: Option<KeyInput>)
    ensures
        (c == 'q' || c == 'Q') ==> r == Some(KeyInput::Quit),
        (c == 'w' || c == 'W') ==> r == Some(KeyInput::Wakeup),
        (c == 'r' || c == 'R') ==> r == Some(KeyInput::Retry),
        !(c == 'q' || c == 'Q' || c == 'w' || c == 'W' || c == 'r' || c == 'R') ==> r is None,
{
    if c == 'q' || c == 'Q' {
        Some(KeyInput::Quit)
    } else if c == 'w' || c == 'W' {
        Some(KeyInput::Wakeup)
    } else if c == 'r' || c == 'R' {
        Some(KeyInput::Retry)
    } else {
        None
    }
}

/// What the console does with a key: forward it, stop, or drop it.
#[derive(Debug, Clone, Copy, PartialEq, Eq, Structural)]
pub enum UiSignal {
    /// Stop the monitor and leave.
    Stop,
    /// Forward a wake signal to the suspended state's handle.
    Wake,
    /// Forward a retry signal to the error state's handle.
    Retry,
    /// The key means nothing in the current state.
    Ignore,
}

/// Forwards at most the one signal the current state accepts: while
/// suspended, quit stops and wake is forwarded; while parked on an
/// error, quit stops and retry is forwarded; every other pairing is
/// dropped, and no keys are read at all outside those two states.
pub fn ui_dispatch(state: &State, input: KeyInput) -> (r: UiSignal)
    ensures
        match state {
            State::Suspended { .. } => r == match input {
                KeyInput::Quit => UiSignal::Stop,
                KeyInput::Wakeup => UiSignal::Wake,
                KeyInput::Retry => UiSignal::Ignore,
            },
            State::Error { .. } => r == match input {
                KeyInput::Quit => UiSignal::Stop,
                KeyInput::Retry => UiSignal::Retry,
                KeyInput::Wakeup => UiSignal::Ignore,
            },
            _ => r == UiSignal::Ignore,
        },
{
    match state {
        State::Suspended { .. } => match input {
            KeyInput::Quit => UiSignal::Stop,
            KeyInput::Wakeup => UiSignal::Wake,
            KeyInput::Retry => UiSignal::Ignore,
        },
        State::Error { .. } => match input {
            KeyInput::Quit => UiSignal::Stop,
            KeyInput::Retry => UiSignal::Retry,
            KeyInput::Wakeup => UiSignal::Ignore,
        },
        _ => UiSignal::Ignore,
    }
}

/// The console report of a whole snapshot: the caller's own standing,
/// the count of other registered connections, and — when there are any
/// — a header line and one numbered line for each.
pub fn status_report_lines(status: &Status) -> (r: Vec<String>)
    ensures
        ({
            let conns = status.connections_seq();
            let own_active = status.system_status.connection.spec_is_active();
            &&& r@.len() == 2 + if conns.len() == 0 {
                0int
            } else {
                1 + conns.len() as int
            }
            &&& r@[0]@ == "Your IP address is "@ + ip_text(status.system_status.ip) + " and "@
                + if own_active {
                "active for "@ + spec_format_duration(
                    status.system_status.connection.time_left as nat,
                )
            } else {
                "inactive"@
            }
            &&& r@[1]@ == "Number of other registered connections: "@ + dec_str(conns.len())
            &&& conns.len() > 0 ==> r@[2]@ == "S.No.\tIP\t\tTime left"@
            &&& forall|k: int|
                0 <= k < conns.len() ==> #[trigger] r@[3 + k]@ == dec_str((k + 1) as nat) + "\t"@
                    + ip_text(conns[k].0) + "\t"@ + if conns[k].1.spec_is_active() {
                    spec_format_duration(conns[k].1.time_left as nat)
                } else {
                    "Inactive or expired"@
                }
        }),
{
    let mut r: Vec<String> = Vec::new();
    let mut own_line = String::from_str("Your IP address is ");
    let own_ip_str = ip_to_string(&status.system_status.ip);
    own_line.append(own_ip_str.as_str());
    own_line.append(" and ");
    if status.system_status.connection.is_active() {
        own_line.append("active for ");
        let left = format_duration(status.system_status.connection.time_left);
        own_line.append(left.as_str());
    } else {
        own_line.append("inactive");
    }
    r.push(own_line);
    let conns = status.connections();
    let n = conns.len();
    let mut count_line = String::from_str("Number of other registered connections: ");
    let count_text = u64_to_string(n as u64);
    count_line.append(count_text.as_str());
    r.push(count_line);
    if n > 0 {
        r.push(String::from_str("S.No.\tIP\t\tTime left"));
    }
    let mut k: usize = 0;
    while k < n
        invariant
            n == status.connections_seq().len(),
            conns@ == status.connections_seq(),
            k <= n,
            n > 0 ==> r@.len() == 3 + k,
            n == 0 ==> r@.len() == 2,
            forall|j: int|
                0 <= j < k ==> #[trigger] r@[3 + j]@ == dec_str((j + 1) as nat) + "\t"@ + ip_text(
                    conns@[j].0,
                ) + "\t"@ + if conns@[j].1.spec_is_active() {
                    spec_format_duration(conns@[j].1.time_left as nat)
                } else {
                    "Inactive or expired"@
                },
            r@.len() >= 2,
            r@[0]@ == "Your IP address is "@ + ip_text(status.system_status.ip) + " and "@
                + if status.system_status.connection.spec_is_active() {
                "active for "@ + spec_format_duration(
                    status.system_status.connection.time_left as nat,
                )
            } else {
                "inactive"@
            },
            r@[1]@ == "Number of other registered connections: "@ + dec_str(n as nat),
            n > 0 ==> r@[2]@ == "S.No.\tIP\t\tTime left"@,
        decreases n - k,
    {
        let (ip, conn) = conns[k];
        let mut line = u64_to_string((k as u64) + 1);
        line.append("\t");
        let ip_str = ip_to_string(&ip);
        line.append(ip_str.as_str());
        line.append("\t");
        if conn.is_active() {
            let left = format_duration(conn.time_left);
            line.append(left.as_str());
        } else {
            line.append("Inactive or expired");
        }
        r.push(line);
        k = k + 1;
    }
    r
}

} // verus!
