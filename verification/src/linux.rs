//! Linux-specific ping: detecting the installed ping, building its command
//! line and reading its output.

use vstd::prelude::*;
use vstd::utf8::{decode_utf8, is_ascii_chars_encode_utf8, valid_utf8};
use crate::rtt::{extract_spec, TimePattern};
use crate::target::{IPVersion, Target};
use crate::text::{
    bytes_contain, concat, first_lines, is_utf8, has_infix, has_prefix, owned, take_lines,
    text_bytes, text_starts_with,
};
use crate::{extract_regex, PingCreationError, PingOptions, PingResult};

verus! {

broadcast use {vstd::seq::group_seq_axioms, vstd::slice::group_slice_axioms};

/// A Linux ping implementation, with the options it runs under.
#[derive(Debug)]
pub enum LinuxPinger {
    /// BusyBox ping (Alpine, Android)
    BusyBox(PingOptions),
    /// iputils ping (Debian, Ubuntu, etc)
    IPTools(PingOptions),
}

/// The asynchronous counterpart of [`LinuxPinger`].
#[derive(Debug)]
pub enum LinuxAsyncPinger {
    /// BusyBox ping (Alpine, Android)
    BusyBox(PingOptions),
    /// iputils ping (Debian, Ubuntu, etc)
    IPTools(PingOptions),
}

// ---------------------------------------------------------------------------
// Detection from the output of `ping -V`.

/// The standard error of `ping -V` names BusyBox.
pub open spec fn names_busybox(stderr: Seq<u8>) -> bool {
    has_infix(stderr, text_bytes("BusyBox"@))
}

/// The standard output of `ping -V` names iputils.
pub open spec fn names_iputils(stdout: Seq<u8>) -> bool {
    has_infix(stdout, text_bytes("iputils"@))
}

/// The standard output of `ping -V` names inetutils.
pub open spec fn names_inetutils(stdout: Seq<u8>) -> bool {
    has_infix(stdout, text_bytes("inetutils"@))
}

/// Both outputs of `ping -V` are well-formed UTF-8 text.
pub open spec fn readable(stdout: Seq<u8>, stderr: Seq<u8>) -> bool {
    valid_utf8(stdout) && valid_utf8(stderr)
}

/// The outputs show a BusyBox ping.
pub open spec fn shows_busybox(stdout: Seq<u8>, stderr: Seq<u8>) -> bool {
    readable(stdout, stderr) && names_busybox(stderr)
}

/// The outputs show an iputils ping.
pub open spec fn shows_iputils(stdout: Seq<u8>, stderr: Seq<u8>) -> bool {
    readable(stdout, stderr) && !names_busybox(stderr) && names_iputils(stdout)
}

/// The strings decode, one for one, the given lines.
pub open spec fn decoded_lines(v: Seq<String>, lines: Seq<Seq<u8>>) -> bool {
    v.len() == lines.len() && forall|k: int| 0 <= k < v.len() ==> #[trigger] v[k]@ == decode_utf8(lines[k])
}

/// The error that detection reports for outputs that show neither BusyBox
/// nor iputils: unreadable output fails as a spawn error, inetutils is not
/// supported, and anything else is unknown, with the first two lines of each
/// output.
pub open spec fn detection_error(stdout: Seq<u8>, stderr: Seq<u8>, e: PingCreationError) -> bool {
    match e {
        PingCreationError::SpawnError(_) => !readable(stdout, stderr),
        PingCreationError::NotSupported { alternative } => readable(stdout, stderr)
            && names_inetutils(stdout) && alternative@ == "Please use iputils ping, not inetutils."@,
        PingCreationError::UnknownPing { stderr: err_lines, stdout: out_lines } => readable(
            stdout,
            stderr,
        ) && !names_inetutils(stdout) && decoded_lines(out_lines@, first_lines(stdout, 2))
            && decoded_lines(err_lines@, first_lines(stderr, 2)),
        PingCreationError::HostnameError(_) => false,
    }
}

/// Reads what `ping -V` printed: `Ok(true)` for BusyBox, `Ok(false)` for
/// iputils, else the detection error.
fn classify(stdout: Vec<u8>, stderr: Vec<u8>) -> (r: Result<bool, PingCreationError>)
    ensures
        match r {
            Ok(busybox) => if busybox {
                shows_busybox(stdout@, stderr@)
            } else {
                shows_iputils(stdout@, stderr@)
            },
            Err(e) => !shows_busybox(stdout@, stderr@) && !shows_iputils(stdout@, stderr@)
                && detection_error(stdout@, stderr@, e),
        },
{
    if !is_utf8(stdout.as_slice()) {
        return Err(PingCreationError::SpawnError(invalid_data("Invalid UTF-8 in ping stdout")));
    }
    if !is_utf8(stderr.as_slice()) {
        return Err(PingCreationError::SpawnError(invalid_data("Invalid UTF-8 in ping stderr")));
    }
    if bytes_contain(stderr.as_slice(), "BusyBox".as_bytes()) {
        Ok(true)
    } else if bytes_contain(stdout.as_slice(), "iputils".as_bytes()) {
        Ok(false)
    } else if bytes_contain(stdout.as_slice(), "inetutils".as_bytes()) {
        Err(PingCreationError::NotSupported { alternative: owned("Please use iputils ping, not inetutils.") })
    } else {
        let first_two_lines_stderr = take_lines(stderr.as_slice(), 2);
        let first_two_lines_stdout = take_lines(stdout.as_slice(), 2);
        Err(PingCreationError::UnknownPing {
            stdout: first_two_lines_stdout,
            stderr: first_two_lines_stderr,
        })
    }
}

/// Makes an `std::io::Error` of kind `InvalidData` by calling
/// `std::io::Error::new`; nothing is stated of the error it gives.
#[verifier::external_body]
fn invalid_data(message: &str) -> std::io::Error {
    std::io::Error::new(std::io::ErrorKind::InvalidData, message)
}

// ---------------------------------------------------------------------------
// Output lines.

/// How a Linux ping output line reads: a `64 bytes from` line is a reply when it
/// carries a round-trip time, a `no answer yet` line is a timeout, and any
/// other line is skipped.
pub open spec fn linux_parse_spec(line: String) -> Option<PingResult> {
    if has_prefix(text_bytes(line@), text_bytes("64 bytes from"@)) {
        extract_spec(TimePattern::WithUnit, line)
    } else if has_prefix(text_bytes(line@), text_bytes("no answer yet"@)) {
        Some(PingResult::Timeout(line))
    } else {
        None
    }
}

fn parse_linux_line(line: String) -> (r: Option<PingResult>)
    ensures
        r == linux_parse_spec(line),
{
    if text_starts_with(&line, "64 bytes from") {
        extract_regex(TimePattern::WithUnit, line)
    } else if text_starts_with(&line, "no answer yet") {
        Some(PingResult::Timeout(line))
    } else {
        None
    }
}

// ---------------------------------------------------------------------------
// Command lines.

/// The texts of a list of strings.
pub open spec fn texts(v: Seq<String>) -> Seq<Seq<char>> {
    v.map_values(|s: String| s@)
}

/// The extra raw arguments, if any.
pub open spec fn raw_args(raw: Option<Vec<String>>) -> Seq<Seq<char>> {
    match raw {
        Some(v) => texts(v@),
        None => seq![],
    }
}

/// `-I <interface>` when an interface is chosen.
pub open spec fn interface_args(interface: Option<String>) -> Seq<Seq<char>> {
    match interface {
        Some(i) => seq!["-I"@, i@],
        None => seq![],
    }
}

/// The ping command for the options' target: `ping6` for IPv6 targets.
pub open spec fn ping_command(options: PingOptions) -> Seq<char> {
    if options.target.spec_is_ipv6() {
        "ping6"@
    } else {
        "ping"@
    }
}

/// BusyBox arguments: the target, the interval, then the raw arguments.
/// BusyBox ping reports no timeouts and takes no interface.
pub open spec fn busybox_args(options: PingOptions, interval: Seq<char>) -> Seq<Seq<char>> {
    seq![options.target.text(), "-i"@ + interval] + raw_args(options.raw_arguments)
}

/// iputils arguments: `-O` (report missing answers), the interval, the
/// interface, the raw arguments, and the target last.
pub open spec fn iputils_args(options: PingOptions, interval: Seq<char>) -> Seq<Seq<char>> {
    seq!["-O"@, "-i"@ + interval] + interface_args(options.interface) + raw_args(
        options.raw_arguments,
    ) + seq![options.target.text()]
}

fn push_text(out: &mut Vec<String>, s: String)
    ensures
        texts(final(out)@) == texts(old(out)@).push(s@),
{
    let ghost before = out@;
    out.push(s);
    proof {
        assert(texts(out@) =~= texts(before).push(s@));
    }
}

fn push_raw_args(out: &mut Vec<String>, raw: &Option<Vec<String>>)
    ensures
        texts(final(out)@) == texts(old(out)@) + raw_args(*raw),
{
    match raw {
        Some(v) => {
            let ghost start = texts(out@);
            let mut k: usize = 0;
            while k < v.len()
                invariant
                    k <= v@.len(),
                    texts(out@) == start + texts(v@.subrange(0, k as int)),
                decreases v@.len() - k,
            {
                push_text(out, v[k].clone());
                k += 1;
                proof {
                    assert(texts(v@.subrange(0, k as int)) =~= texts(v@.subrange(0, k - 1)).push(
                        v@[k - 1]@,
                    ));
                }
            }
            proof {
                assert(v@.subrange(0, k as int) =~= v@);
            }
        },
        None => {
            assert(texts(out@) + raw_args(*raw) =~= texts(out@));
        },
    }
}

fn command_for(options: &PingOptions) -> (r: &'static str)
    ensures
        r@ == ping_command(*options),
{
    if options.target.is_ipv6() {
        "ping6"
    } else {
        "ping"
    }
}

fn busybox_invocation(options: &PingOptions, interval: &str) -> (r: (&'static str, Vec<String>))
    ensures
        r.0@ == ping_command(*options),
        texts(r.1@) == busybox_args(*options, interval@),
{
    let mut args: Vec<String> = Vec::new();
    push_text(&mut args, options.target.to_text());
    push_text(&mut args, concat("-i", interval));
    push_raw_args(&mut args, &options.raw_arguments);
    proof {
        assert(texts(args@) =~= busybox_args(*options, interval@));
    }
    (command_for(options), args)
}

fn iputils_invocation(options: &PingOptions, interval: &str) -> (r: (&'static str, Vec<String>))
    ensures
        r.0@ == ping_command(*options),
        texts(r.1@) == iputils_args(*options, interval@),
{
    let mut args: Vec<String> = Vec::new();
    push_text(&mut args, owned("-O"));
    push_text(&mut args, concat("-i", interval));
    let ghost before_interface = texts(args@);
    match &options.interface {
        Some(interface) => {
            push_text(&mut args, owned("-I"));
            push_text(&mut args, interface.clone());
        },
        None => {},
    }
    proof {
        assert(texts(args@) =~= before_interface + interface_args(options.interface));
    }
    push_raw_args(&mut args, &options.raw_arguments);
    push_text(&mut args, options.target.to_text());
    proof {
        assert(texts(args@) =~= iputils_args(*options, interval@));
    }
    (command_for(options), args)
}

impl LinuxPinger {
    /// The options the pinger runs under.
    pub open spec fn spec_options(self) -> PingOptions {
        match self {
            LinuxPinger::BusyBox(o) => o,
            LinuxPinger::IPTools(o) => o,
        }
    }

    /// Detect the platform's ping implementation from what `ping -V` printed.
    ///
    /// # Errors
    ///
    /// - [`PingCreationError::UnknownPing`] - The ping command cannot be detected
    /// - [`PingCreationError::NotSupported`] - The ping command is not supported
    /// - [`PingCreationError::SpawnError`] - The output is not UTF-8 text
    pub fn detect_platform_ping(options: PingOptions, stdout: Vec<u8>, stderr: Vec<u8>) -> (r: Result<
        Self,
        PingCreationError,
    >)
        ensures
            match r {
                Ok(p) => (shows_busybox(stdout@, stderr@) && p == LinuxPinger::BusyBox(options)) || (
                shows_iputils(stdout@, stderr@) && p == LinuxPinger::IPTools(options)),
                Err(e) => !shows_busybox(stdout@, stderr@) && !shows_iputils(stdout@, stderr@)
                    && detection_error(stdout@, stderr@, e),
            },
    {
        match classify(stdout, stderr) {
            Ok(true) => Ok(LinuxPinger::BusyBox(options)),
            Ok(false) => Ok(LinuxPinger::IPTools(options)),
            Err(e) => Err(e),
        }
    }

    /// Reads one line of ping output.
    pub fn parse_line(line: String) -> (r: Option<PingResult>)
        ensures
            r == linux_parse_spec(line),
    {
        parse_linux_line(line)
    }

    /// The command and arguments for this platform's ping; `interval` is the
    /// interval in seconds written with one decimal.
    pub fn ping_args(&self, interval: &str) -> (r: (&'static str, Vec<String>))
        ensures
            r.0@ == ping_command(self.spec_options()),
            texts(r.1@) == match self {
                LinuxPinger::BusyBox(o) => busybox_args(*o, interval@),
                LinuxPinger::IPTools(o) => iputils_args(*o, interval@),
            },
    {
        match self {
            LinuxPinger::BusyBox(options) => busybox_invocation(options, interval),
            LinuxPinger::IPTools(options) => iputils_invocation(options, interval),
        }
    }
}

impl LinuxAsyncPinger {
    /// The options the pinger runs under.
    pub open spec fn spec_options(self) -> PingOptions {
        match self {
            LinuxAsyncPinger::BusyBox(o) => o,
            LinuxAsyncPinger::IPTools(o) => o,
        }
    }

    /// Detect the platform's ping implementation from what `ping -V` printed.
    ///
    /// # Errors
    ///
    /// - [`PingCreationError::UnknownPing`] - The ping command cannot be detected
    /// - [`PingCreationError::NotSupported`] - The ping command is not supported
    /// - [`PingCreationError::SpawnError`] - The output is not UTF-8 text
    pub fn detect_platform_ping(options: PingOptions, stdout: Vec<u8>, stderr: Vec<u8>) -> (r: Result<
        Self,
        PingCreationError,
    >)
        ensures
            match r {
                Ok(p) => (shows_busybox(stdout@, stderr@) && p == LinuxAsyncPinger::BusyBox(options))
                    || (shows_iputils(stdout@, stderr@) && p == LinuxAsyncPinger::IPTools(options)),
                Err(e) => !shows_busybox(stdout@, stderr@) && !shows_iputils(stdout@, stderr@)
                    && detection_error(stdout@, stderr@, e),
            },
    {
        match classify(stdout, stderr) {
            Ok(true) => Ok(LinuxAsyncPinger::BusyBox(options)),
            Ok(false) => Ok(LinuxAsyncPinger::IPTools(options)),
            Err(e) => Err(e),
        }
    }

    /// Reads one line of ping output.
    pub fn parse_line(line: String) -> (r: Option<PingResult>)
        ensures
            r == linux_parse_spec(line),
    {
        parse_linux_line(line)
    }

    /// The command and arguments for this platform's ping; `interval` is the
    /// interval in seconds written with one decimal.
    pub fn ping_args(&self, interval: &str) -> (r: (&'static str, Vec<String>))
        ensures
            r.0@ == ping_command(self.spec_options()),
            texts(r.1@) == match self {
                LinuxAsyncPinger::BusyBox(o) => busybox_args(*o, interval@),
                LinuxAsyncPinger::IPTools(o) => iputils_args(*o, interval@),
            },
    {
        match self {
            LinuxAsyncPinger::BusyBox(options) => busybox_invocation(options, interval),
            LinuxAsyncPinger::IPTools(options) => iputils_invocation(options, interval),
        }
    }
}

/// A Linux output line gives a timeout exactly when it starts with
/// `no answer yet`, a reply only when it starts with `64 bytes from`, nothing
/// for any other line, and every result carries the line unchanged.
pub proof fn law_linux_line_kinds(line: String)
    ensures
        linux_parse_spec(line) matches Some(p) ==> p.line() == line,
        has_prefix(text_bytes(line@), text_bytes("64 bytes from"@)) ==> (linux_parse_spec(line) is None
            || linux_parse_spec(line) matches Some(PingResult::Pong(_, _))),
        !has_prefix(text_bytes(line@), text_bytes("64 bytes from"@)) ==> (linux_parse_spec(line)
            == if has_prefix(text_bytes(line@), text_bytes("no answer yet"@)) {
            Some(PingResult::Timeout(line))
        } else {
            None
        }),
{
}

/// iputils is run with `-O` first and the target last; BusyBox gets the target
/// first; both take the interval second and keep the raw arguments together
/// and in order.
pub proof fn law_argument_layout(options: PingOptions, interval: Seq<char>)
    ensures
        iputils_args(options, interval)[0] == "-O"@,
        iputils_args(options, interval).last() == options.target.text(),
        iputils_args(options, interval)[1] == "-i"@ + interval,
        iputils_args(options, interval).subrange(
            2 + interface_args(options.interface).len() as int,
            2 + interface_args(options.interface).len() as int + raw_args(
                options.raw_arguments,
            ).len() as int,
        ) == raw_args(options.raw_arguments),
        busybox_args(options, interval)[0] == options.target.text(),
        busybox_args(options, interval)[1] == "-i"@ + interval,
        busybox_args(options, interval).subrange(2, busybox_args(options, interval).len() as int)
            == raw_args(options.raw_arguments),
{
    let head = seq!["-O"@, "-i"@ + interval];
    let iface = interface_args(options.interface);
    let raw = raw_args(options.raw_arguments);
    let all = iputils_args(options, interval);
    assert(all =~= head + iface + raw + seq![options.target.text()]);
    assert(all.subrange(2 + iface.len() as int, 2 + iface.len() as int + raw.len() as int) =~= raw);
    let bb = busybox_args(options, interval);
    assert(bb.subrange(2, bb.len() as int) =~= raw);
}

/// BusyBox takes no interface: the chosen interface never changes its
/// arguments.
pub proof fn law_busybox_ignores_interface(
    options: PingOptions,
    interface: Option<String>,
    interval: Seq<char>,
)
    ensures
        busybox_args(PingOptions { interface, ..options }, interval) == busybox_args(options, interval),
{
}

/// What `ping -V` printed settles at most one outcome: BusyBox wins over
/// iputils, and an error comes only when neither is shown.
pub proof fn law_detection_exclusive(stdout: Seq<u8>, stderr: Seq<u8>)
    ensures
        !(shows_busybox(stdout, stderr) && shows_iputils(stdout, stderr)),
{
}

/// The words that detection looks for, as bytes: `BusyBox`, `iputils` and
/// `inetutils`.
proof fn lemma_detection_words()
    ensures
        text_bytes("BusyBox"@) == seq![66u8, 117, 115, 121, 66, 111, 120],
        text_bytes("iputils"@) == seq![105u8, 112, 117, 116, 105, 108, 115],
        text_bytes("inetutils"@) == seq![105u8, 110, 101, 116, 117, 116, 105, 108, 115],
{
    reveal_strlit("BusyBox");
    reveal_strlit("iputils");
    reveal_strlit("inetutils");
    is_ascii_chars_encode_utf8("BusyBox"@);
    is_ascii_chars_encode_utf8("iputils"@);
    is_ascii_chars_encode_utf8("inetutils"@);
    assert(text_bytes("BusyBox"@) =~= seq![66u8, 117, 115, 121, 66, 111, 120]);
    assert(text_bytes("iputils"@) =~= seq![105u8, 112, 117, 116, 105, 108, 115]);
    assert(text_bytes("inetutils"@) =~= seq![105u8, 110, 101, 116, 117, 116, 105, 108, 115]);
}

/// Detection goes by plain words anywhere in the output of `ping -V`: readable
/// output whose standard error holds the bytes `BusyBox` is BusyBox; readable
/// output whose standard error does not, and whose standard output holds the
/// bytes `iputils` anywhere (`ping from iputils 20211215` as well as the older
/// `ping utility, iputils-s20161105`), is iputils; `inetutils` anywhere in the
/// standard output names inetutils.
pub proof fn law_detection_words(stdout: Seq<u8>, stderr: Seq<u8>)
    ensures
        names_busybox(stderr) <==> has_infix(stderr, seq![66u8, 117, 115, 121, 66, 111, 120]),
        names_iputils(stdout) <==> has_infix(stdout, seq![105u8, 112, 117, 116, 105, 108, 115]),
        names_inetutils(stdout) <==> has_infix(
            stdout,
            seq![105u8, 110, 101, 116, 117, 116, 105, 108, 115],
        ),
        valid_utf8(stdout) && valid_utf8(stderr) && has_infix(
            stderr,
            seq![66u8, 117, 115, 121, 66, 111, 120],
        ) ==> shows_busybox(stdout, stderr),
        valid_utf8(stdout) && valid_utf8(stderr) && !has_infix(
            stderr,
            seq![66u8, 117, 115, 121, 66, 111, 120],
        ) && has_infix(stdout, seq![105u8, 112, 117, 116, 105, 108, 115]) ==> shows_iputils(
            stdout,
            stderr,
        ),
{
    lemma_detection_words();
}

/// IPv6 targets are pinged with `ping6` and all others with `ping`: an IPv6
/// address or a hostname held to IPv6 gets `ping6`; an IPv4 address, and a
/// hostname held to IPv4 or to no version, get `ping`.
pub proof fn law_command_by_family(options: PingOptions)
    ensures
        ping_command(options) == match options.target {
            Target::IP(ip) => if ip is V6 {
                "ping6"@
            } else {
                "ping"@
            },
            Target::Hostname { version, .. } => if version == IPVersion::V6 {
                "ping6"@
            } else {
                "ping"@
            },
        },
        "ping"@ != "ping6"@,
{
    reveal_strlit("ping");
    reveal_strlit("ping6");
    assert("ping"@.len() != "ping6"@.len());
}

} // verus!
