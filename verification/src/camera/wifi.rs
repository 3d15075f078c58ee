//! Joining the camera's own network.
//!
//! Two halves, kept apart on purpose. [`JoinPolicy`] decides whether to try again and
//! when, using the core's deadlines; [`command_line`] builds the argument list for the
//! platform's own tool, and the Windows profile document the first of them installs.
//! Times are milliseconds on the caller's monotonic clock.

use vstd::prelude::*;

use vstd::string::*;

use crate::text::{chars_of, owned, push_char, push_str, str_eq};

verus! {

/// What to do next about the network.
#[derive(Debug, Clone, PartialEq, Eq)]
pub enum JoinStep {
    /// Leave this network first.
    Kick(String),
    /// Ask the platform to join.
    Join,
    /// Wait out the pause between attempts.
    Wait,
    /// On the camera's network, with an address on its subnet.
    Settled,
    /// Out of time.
    GaveUp(String),
}

/// A step as values: the network to leave, or the reason for giving up, as text.
pub enum StepView {
    Kick(Seq<char>),
    Join,
    Wait,
    Settled,
    GaveUp(Seq<char>),
}

pub open spec fn step_view(step: JoinStep) -> StepView {
    match step {
        JoinStep::Kick(name) => StepView::Kick(name@),
        JoinStep::Join => StepView::Join,
        JoinStep::Wait => StepView::Wait,
        JoinStep::Settled => StepView::Settled,
        JoinStep::GaveUp(reason) => StepView::GaveUp(reason@),
    }
}

/// The core's join deadlines, in milliseconds: how long a join may take in all, and the
/// pause between attempts.
#[derive(Debug, Clone, Copy, PartialEq, Eq, Structural)]
pub struct JoinTiming {
    pub deadline: u64,
    pub retry_pause: u64,
}

/// The policy's state as values.
pub struct JoinView {
    pub target: Seq<char>,
    pub started: u64,
    pub last_attempt: Option<u64>,
    pub kicked: bool,
    pub timing: JoinTiming,
}

/// Decides when to try the join again.
#[derive(Debug)]
pub struct JoinPolicy {
    target: String,
    started: u64,
    last_attempt: Option<u64>,
    kicked: bool,
    timing: JoinTiming,
}

impl View for JoinPolicy {
    type V = JoinView;

    closed spec fn view(&self) -> JoinView {
        JoinView {
            target: self.target@,
            started: self.started,
            last_attempt: self.last_attempt,
            kicked: self.kicked,
            timing: self.timing,
        }
    }
}

/// Milliseconds left before the join is abandoned, never below zero.
pub open spec fn time_left(p: JoinView, now: u64) -> int {
    let left = p.timing.deadline - (now - p.started);
    if left > 0 {
        left
    } else {
        0
    }
}

/// Whether the platform's answer puts the machine on the target network. A name the
/// platform will not give, or gives empty, counts as on target: refusing to proceed on
/// that basis strands an operator who is in fact connected.
pub open spec fn on_target(target: Seq<char>, current: Option<Seq<char>>) -> bool {
    match current {
        None => true,
        Some(name) => name.len() == 0 || name == target,
    }
}

/// What the operator is told when the deadline passes.
pub open spec fn gave_up_reason(target: Seq<char>) -> Seq<char> {
    "Could not join "@ + target + ". Check the camera is awake and close by."@
}

/// One tick of the policy: the step to take and the policy after it.
pub open spec fn join_tick(
    p: JoinView,
    now: u64,
    current: Option<Seq<char>>,
    path_ready: bool,
) -> (JoinView, StepView) {
    if on_target(p.target, current) && path_ready {
        (p, StepView::Settled)
    } else if time_left(p, now) <= 0 {
        (p, StepView::GaveUp(gave_up_reason(p.target)))
    } else if !p.kicked && current is Some && !on_target(p.target, current) {
        (JoinView { kicked: true, ..p }, StepView::Kick(current->0))
    } else {
        let p = JoinView { kicked: true, ..p };
        let due = match p.last_attempt {
            None => true,
            Some(at) => now - at >= p.timing.retry_pause,
        };
        if due && time_left(p, now) > p.timing.retry_pause {
            (JoinView { last_attempt: Some(now), ..p }, StepView::Join)
        } else {
            (p, StepView::Wait)
        }
    }
}

/// Once the current network has been left, or a first attempt made, no tick leaves a
/// network again.
pub proof fn lemma_kick_at_most_once(
    p: JoinView,
    now: u64,
    current: Option<Seq<char>>,
    path_ready: bool,
)
    requires
        p.kicked,
    ensures
        !(join_tick(p, now, current, path_ready).1 is Kick),
        join_tick(p, now, current, path_ready).0.kicked,
{
}

/// A join is only started when the last one is at least a pause old and a whole pause
/// is left before the deadline.
pub proof fn lemma_join_spacing(p: JoinView, now: u64, current: Option<Seq<char>>, path_ready: bool)
    requires
        join_tick(p, now, current, path_ready).1 is Join,
    ensures
        time_left(p, now) > p.timing.retry_pause,
        p.last_attempt matches Some(at) ==> now - at >= p.timing.retry_pause,
        join_tick(p, now, current, path_ready).0.last_attempt == Some(now),
{
}

impl JoinPolicy {
    pub fn new(target: &str, now: u64, timing: JoinTiming) -> (policy: Self)
        ensures
            policy@.target == target@,
            policy@.started == now,
            policy@.last_attempt is None,
            !policy@.kicked,
            policy@.timing == timing,
    {
        JoinPolicy { target: owned(target), started: now, last_attempt: None, kicked: false, timing }
    }

    pub fn target(&self) -> (target: &str)
        ensures
            target@ == self@.target,
    {
        self.target.as_str()
    }

    /// Milliseconds left before the join is abandoned, exactly.
    fn remaining(&self, now: u64) -> (left: u128)
        ensures
            left == time_left(self@, now),
    {
        if now <= self.started {
            self.timing.deadline as u128 + (self.started - now) as u128
        } else if now - self.started >= self.timing.deadline {
            0
        } else {
            (self.timing.deadline - (now - self.started)) as u128
        }
    }

    /// Milliseconds left before the join is abandoned, saturating at the largest `u64`.
    pub fn time_left(&self, now: u64) -> (left: u64)
        ensures
            left == if time_left(self@, now) > u64::MAX {
                u64::MAX as int
            } else {
                time_left(self@, now)
            },
    {
        let left = self.remaining(now);
        if left > u64::MAX as u128 {
            u64::MAX
        } else {
            left as u64
        }
    }

    /// `current_ssid` is `None` when the platform will not say.
    pub fn tick(&mut self, now: u64, current_ssid: Option<&str>, path_ready: bool) -> (step:
        JoinStep)
        ensures
            (final(self)@, step_view(step)) == join_tick(
                old(self)@,
                now,
                match current_ssid {
                    Some(name) => Some(name@),
                    None => None,
                },
                path_ready,
            ),
    {
        let on_target = match current_ssid {
            None => true,
            Some(name) => name.is_empty() || str_eq(name, self.target.as_str()),
        };
        if on_target && path_ready {
            return JoinStep::Settled;
        }
        let left = self.remaining(now);
        if left == 0 {
            let mut reason = owned("Could not join ");
            push_str(&mut reason, self.target.as_str());
            push_str(&mut reason, ". Check the camera is awake and close by.");
            return JoinStep::GaveUp(reason);
        }
        if !self.kicked {
            if let Some(name) = current_ssid {
                if !on_target {
                    self.kicked = true;
                    return JoinStep::Kick(owned(name));
                }
            }
            self.kicked = true;
        }
        let due = match self.last_attempt {
            None => true,
            Some(at) => now >= at && now - at >= self.timing.retry_pause,
        };
        if due && left > self.timing.retry_pause as u128 {
            self.last_attempt = Some(now);
            return JoinStep::Join;
        }
        JoinStep::Wait
    }
}

/// What the shell has to supply: a way to see the current network, join one, and leave
/// one. Implementations run [`command_line`]; the tests fake them.
pub trait WifiJoiner {
    fn current_ssid(&self) -> Option<String>;

    fn local_ipv4_addresses(&self) -> Vec<String>;

    fn join(&mut self, ssid: &str, password: &str) -> std::io::Result<()>;

    fn disconnect(&mut self, ssid: &str) -> std::io::Result<()>;
}

/// The platform tool and its arguments for one network action.
#[derive(Debug, Clone, PartialEq, Eq)]
pub struct CommandLine {
    pub program: String,
    pub arguments: Vec<String>,
}

/// Which platform's tooling to build for.
#[derive(Debug, Clone, Copy, PartialEq, Eq)]
pub enum Platform {
    Windows,
    Linux,
    MacOs,
}

/// A command line as text: the program and each argument.
pub open spec fn line_view(line: CommandLine) -> (Seq<char>, Seq<Seq<char>>) {
    (line.program@, line.arguments@.map_values(|argument: String| argument@))
}

/// Every command line of a list, as text.
pub open spec fn lines_view(lines: Seq<CommandLine>) -> Seq<(Seq<char>, Seq<Seq<char>>)> {
    lines.map_values(|line: CommandLine| line_view(line))
}

/// The optional interface argument each platform takes.
pub open spec fn interface_arguments(
    platform: Platform,
    interface: Option<Seq<char>>,
) -> Seq<Seq<char>> {
    match interface {
        None => Seq::empty(),
        Some(name) => match platform {
            Platform::Windows => seq!["interface="@ + name],
            Platform::Linux => seq!["ifname"@, name],
            Platform::MacOs => Seq::empty(),
        },
    }
}

/// What to run to join `ssid`: Windows installs a profile and then connects; Linux
/// asks NetworkManager; macOS asks `networksetup` on the named interface, `en0` by
/// default.
pub open spec fn spec_command_line(
    platform: Platform,
    ssid: Seq<char>,
    password: Seq<char>,
    interface: Option<Seq<char>>,
) -> Seq<(Seq<char>, Seq<Seq<char>>)> {
    match platform {
        Platform::Windows => seq![
            ("netsh"@, seq!["wlan"@, "add"@, "profile"@, "filename=%PROFILE%"@]),
            (
                "netsh"@,
                seq!["wlan"@, "connect"@, "name="@ + ssid, "ssid="@ + ssid] + interface_arguments(
                    platform,
                    interface,
                ),
            ),
        ],
        Platform::Linux => seq![
            (
                "nmcli"@,
                seq!["device"@, "wifi"@, "connect"@, ssid, "password"@, password]
                    + interface_arguments(platform, interface),
            ),
        ],
        Platform::MacOs => seq![
            (
                "networksetup"@,
                seq![
                    "-setairportnetwork"@,
                    match interface {
                        Some(name) => name,
                        None => "en0"@,
                    },
                    ssid,
                    password,
                ],
            ),
        ],
    }
}

/// `prefix` followed by `text`.
fn joined(prefix: &str, text: &str) -> (s: String)
    ensures
        s@ == prefix@ + text@,
{
    let mut s = owned(prefix);
    push_str(&mut s, text);
    s
}

/// What to run to join `ssid`.
///
/// Windows needs a profile installed before it will connect, so joining is two
/// commands; [`profile_xml`] builds the document the first one takes.
pub fn command_line(
    platform: Platform,
    ssid: &str,
    password: &str,
    interface: Option<&str>,
) -> (lines: Vec<CommandLine>)
    ensures
        lines_view(lines@) == spec_command_line(
            platform,
            ssid@,
            password@,
            match interface {
                Some(name) => Some(name@),
                None => None,
            },
        ),
{
    let ghost iface = match interface {
        Some(name) => Some(name@),
        None => None::<Seq<char>>,
    };
    match platform {
        Platform::Windows => {
            let mut profile_args: Vec<String> = Vec::new();
            profile_args.push(owned("wlan"));
            profile_args.push(owned("add"));
            profile_args.push(owned("profile"));
            profile_args.push(owned("filename=%PROFILE%"));
            let mut connect: Vec<String> = Vec::new();
            connect.push(owned("wlan"));
            connect.push(owned("connect"));
            connect.push(joined("name=", ssid));
            connect.push(joined("ssid=", ssid));
            if let Some(name) = interface {
                connect.push(joined("interface=", name));
            }
            let mut lines: Vec<CommandLine> = Vec::new();
            lines.push(CommandLine { program: owned("netsh"), arguments: profile_args });
            lines.push(CommandLine { program: owned("netsh"), arguments: connect });
            proof {
                assert(lines_view(lines@) =~= spec_command_line(platform, ssid@, password@, iface))
                    by {
                    assert(line_view(lines@[0]).1 =~= seq![
                        "wlan"@,
                        "add"@,
                        "profile"@,
                        "filename=%PROFILE%"@,
                    ]);
                    assert(line_view(lines@[1]).1 =~= seq![
                        "wlan"@,
                        "connect"@,
                        "name="@ + ssid@,
                        "ssid="@ + ssid@,
                    ] + interface_arguments(platform, iface));
                }
            }
            lines
        },
        Platform::Linux => {
            let mut arguments: Vec<String> = Vec::new();
            arguments.push(owned("device"));
            arguments.push(owned("wifi"));
            arguments.push(owned("connect"));
            arguments.push(owned(ssid));
            arguments.push(owned("password"));
            arguments.push(owned(password));
            if let Some(name) = interface {
                arguments.push(owned("ifname"));
                arguments.push(owned(name));
            }
            let mut lines: Vec<CommandLine> = Vec::new();
            lines.push(CommandLine { program: owned("nmcli"), arguments });
            proof {
                assert(lines_view(lines@) =~= spec_command_line(platform, ssid@, password@, iface))
                    by {
                    assert(line_view(lines@[0]).1 =~= seq![
                        "device"@,
                        "wifi"@,
                        "connect"@,
                        ssid@,
                        "password"@,
                        password@,
                    ] + interface_arguments(platform, iface));
                }
            }
            lines
        },
        Platform::MacOs => {
            let mut arguments: Vec<String> = Vec::new();
            arguments.push(owned("-setairportnetwork"));
            match interface {
                Some(name) => arguments.push(owned(name)),
                None => arguments.push(owned("en0")),
            }
            arguments.push(owned(ssid));
            arguments.push(owned(password));
            let mut lines: Vec<CommandLine> = Vec::new();
            lines.push(CommandLine { program: owned("networksetup"), arguments });
            proof {
                assert(lines_view(lines@) =~= spec_command_line(platform, ssid@, password@, iface))
                    by {
                    assert(line_view(lines@[0]).1 =~= seq![
                        "-setairportnetwork"@,
                        match iface {
                            Some(name) => name,
                            None => "en0"@,
                        },
                        ssid@,
                        password@,
                    ]);
                }
            }
            lines
        },
    }
}

/// What to run to leave `ssid`.
pub open spec fn spec_disconnect_command(platform: Platform, ssid: Seq<char>) -> (
    Seq<char>,
    Seq<Seq<char>>,
) {
    match platform {
        Platform::Windows => ("netsh"@, seq!["wlan"@, "disconnect"@]),
        Platform::Linux => ("nmcli"@, seq!["connection"@, "down"@, ssid]),
        Platform::MacOs => ("networksetup"@, seq!["-setairportpower"@, "en0"@, "off"@]),
    }
}

/// What to run to leave `ssid`.
pub fn disconnect_command(platform: Platform, ssid: &str) -> (line: CommandLine)
    ensures
        line_view(line) == spec_disconnect_command(platform, ssid@),
{
    let mut arguments: Vec<String> = Vec::new();
    let program = match platform {
        Platform::Windows => {
            arguments.push(owned("wlan"));
            arguments.push(owned("disconnect"));
            owned("netsh")
        },
        Platform::Linux => {
            arguments.push(owned("connection"));
            arguments.push(owned("down"));
            arguments.push(owned(ssid));
            owned("nmcli")
        },
        Platform::MacOs => {
            arguments.push(owned("-setairportpower"));
            arguments.push(owned("en0"));
            arguments.push(owned("off"));
            owned("networksetup")
        },
    };
    let line = CommandLine { program, arguments };
    proof {
        assert(line_view(line).1 =~= spec_disconnect_command(platform, ssid@).1);
    }
    line
}

/// How one character of a name or key is written inside the profile document.
pub open spec fn escaped_char(c: char) -> Seq<char> {
    if c == '&' {
        "&amp;"@
    } else if c == '<' {
        "&lt;"@
    } else if c == '>' {
        "&gt;"@
    } else if c == '"' {
        "&quot;"@
    } else if c == '\'' {
        "&apos;"@
    } else {
        seq![c]
    }
}

/// A text with every XML-special character written as its entity.
pub open spec fn escaped(text: Seq<char>) -> Seq<char>
    decreases text.len(),
{
    if text.len() == 0 {
        Seq::empty()
    } else {
        escaped(text.drop_last()) + escaped_char(text.last())
    }
}

/// An upper-case hexadecimal digit.
pub open spec fn hex_digit(d: int) -> char {
    if d < 10 {
        (48 + d) as char
    } else {
        (55 + d) as char
    }
}

/// Bytes as upper-case hexadecimal, two digits each.
pub open spec fn hex_upper(bytes: Seq<u8>) -> Seq<char>
    decreases bytes.len(),
{
    if bytes.len() == 0 {
        Seq::empty()
    } else {
        hex_upper(bytes.drop_last()) + seq![
            hex_digit(bytes.last() as int / 16),
            hex_digit(bytes.last() as int % 16),
        ]
    }
}

/// The document, cut at the three places the name, the hex form and the key go.
pub open spec fn profile_head() -> Seq<char> {
    "<?xml version=\"1.0\"?>\n<WLANProfile xmlns=\"http://www.microsoft.com/networking/WLAN/profile/v1\">\n  <name>"@
}

pub open spec fn profile_before_hex() -> Seq<char> {
    "</name>\n  <SSIDConfig>\n    <SSID>\n      <hex>"@
}

pub open spec fn profile_before_name() -> Seq<char> {
    "</hex>\n      <name>"@
}

pub open spec fn profile_before_key() -> Seq<char> {
    "</name>\n    </SSID>\n  </SSIDConfig>\n  <connectionType>ESS</connectionType>\n  <connectionMode>manual</connectionMode>\n  <MSM>\n    <security>\n      <authEncryption>\n        <authentication>WPA2PSK</authentication>\n        <encryption>AES</encryption>\n        <useOneX>false</useOneX>\n      </authEncryption>\n      <sharedKey>\n        <keyType>passPhrase</keyType>\n        <protected>false</protected>\n        <keyMaterial>"@
}

pub open spec fn profile_tail() -> Seq<char> {
    "</keyMaterial>\n      </sharedKey>\n    </security>\n  </MSM>\n</WLANProfile>\n"@
}

/// A WPA2-Personal profile for `ssid`, in manual connection mode, with the name both
/// escaped and in hex.
pub open spec fn spec_profile_xml(ssid: Seq<char>, ssid_bytes: Seq<u8>, password: Seq<char>) -> Seq<
    char,
> {
    profile_head() + escaped(ssid) + profile_before_hex() + hex_upper(ssid_bytes)
        + profile_before_name() + escaped(ssid) + profile_before_key() + escaped(password)
        + profile_tail()
}

/// Appends `text` with its XML-special characters escaped.
fn push_escaped(out: &mut String, text: &str)
    ensures
        final(out)@ == old(out)@ + escaped(text@),
{
    let chars = chars_of(text);
    let mut i: usize = 0;
    while i < chars.len()
        invariant
            chars@ == text@,
            i <= chars@.len(),
            out@ == old(out)@ + escaped(chars@.subrange(0, i as int)),
        decreases chars@.len() - i,
    {
        let c = chars[i];
        proof {
            reveal_strlit("&amp;");
            reveal_strlit("&lt;");
            reveal_strlit("&gt;");
            reveal_strlit("&quot;");
            reveal_strlit("&apos;");
        }
        if c == '&' {
            push_str(out, "&amp;");
        } else if c == '<' {
            push_str(out, "&lt;");
        } else if c == '>' {
            push_str(out, "&gt;");
        } else if c == '"' {
            push_str(out, "&quot;");
        } else if c == '\'' {
            push_str(out, "&apos;");
        } else {
            push_char(out, c);
        }
        proof {
            let before = chars@.subrange(0, i as int);
            let after = chars@.subrange(0, i + 1);
            assert(after.drop_last() =~= before);
            assert(after.last() == c);
            assert(escaped(after) == escaped(before) + escaped_char(c));
            assert(out@ =~= old(out)@ + escaped(after));
        }
        i = i + 1;
    }
    proof {
        assert(chars@.subrange(0, i as int) =~= text@);
    }
}

fn hex_char(d: u8) -> (c: char)
    requires
        d < 16,
    ensures
        c == hex_digit(d as int),
{
    if d < 10 {
        (48u8 + d) as char
    } else {
        (55u8 + d) as char
    }
}

/// Appends the bytes as upper-case hexadecimal.
fn push_hex(out: &mut String, bytes: &[u8])
    ensures
        final(out)@ == old(out)@ + hex_upper(bytes@),
{
    let mut i: usize = 0;
    while i < bytes.len()
        invariant
            i <= bytes@.len(),
            out@ == old(out)@ + hex_upper(bytes@.subrange(0, i as int)),
        decreases bytes@.len() - i,
    {
        let byte = bytes[i];
        push_char(out, hex_char(byte / 16));
        push_char(out, hex_char(byte % 16));
        proof {
            let before = bytes@.subrange(0, i as int);
            let after = bytes@.subrange(0, i + 1);
            assert(after.drop_last() =~= before);
            assert(after.last() == byte);
            assert(out@ =~= old(out)@ + hex_upper(after));
        }
        i = i + 1;
    }
    proof {
        assert(bytes@.subrange(0, i as int) =~= bytes@);
    }
}

/// A Windows WLAN profile for a WPA2-Personal network.
///
/// `connectionMode` is manual: the laptop should not wander back onto the camera by
/// itself once the shoot is over.
pub fn profile_xml(ssid: &str, password: &str) -> (xml: String)
    ensures
        xml@ == spec_profile_xml(ssid@, ssid.spec_bytes(), password@),
{
    let mut out = owned("<?xml version=\"1.0\"?>\n<WLANProfile xmlns=\"http://www.microsoft.com/networking/WLAN/profile/v1\">\n  <name>");
    push_escaped(&mut out, ssid);
    push_str(&mut out, "</name>\n  <SSIDConfig>\n    <SSID>\n      <hex>");
    push_hex(&mut out, ssid.as_bytes());
    push_str(&mut out, "</hex>\n      <name>");
    push_escaped(&mut out, ssid);
    push_str(&mut out, "</name>\n    </SSID>\n  </SSIDConfig>\n  <connectionType>ESS</connectionType>\n  <connectionMode>manual</connectionMode>\n  <MSM>\n    <security>\n      <authEncryption>\n        <authentication>WPA2PSK</authentication>\n        <encryption>AES</encryption>\n        <useOneX>false</useOneX>\n      </authEncryption>\n      <sharedKey>\n        <keyType>passPhrase</keyType>\n        <protected>false</protected>\n        <keyMaterial>");
    push_escaped(&mut out, password);
    push_str(&mut out, "</keyMaterial>\n      </sharedKey>\n    </security>\n  </MSM>\n</WLANProfile>\n");
    out
}

} // verus!
