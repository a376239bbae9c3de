//! Boot command-line parsing.
//!
//! The command line is a whitespace-separated option string. The core
//! consumes `root=<path>` (at most 64 bytes are kept), `console=<name>[,
//! <baud>[<parity/bits>]]` (up to 4 console specs with at most 16-byte
//! names; further occurrences are dropped) and `usb_trace`. Unknown
//! tokens are silently ignored. Baud is parsed as leading decimal digits
//! only, saturating on overflow.

use vstd::prelude::*;

verus! {

/// Maximum number of console specifications kept from the command line.
pub const MAX_CONSOLE_SPECS: usize = 4;

/// Maximum length of a console device name.
pub const MAX_CONSOLE_NAME: usize = 16;

/// Maximum length of the root device path.
pub const MAX_ROOT_PATH: usize = 64;

/// The mathematical value of one console spec: its name bytes and baud.
pub struct ConsoleModel {
    /// Device name bytes.
    pub device: Seq<u8>,
    /// Baud rate (0 = default).
    pub baud: u32,
}

/// The mathematical value of the parsed command-line state.
pub struct CmdlineModel {
    /// Console specs, in the order given.
    pub consoles: Seq<ConsoleModel>,
    /// Root device path bytes; empty means unset.
    pub root: Seq<u8>,
    /// Whether USB tracing was requested.
    pub usb_trace: bool,
}

/// Whether a byte is an ASCII whitespace separator.
pub open spec fn spec_is_ws(b: u8) -> bool {
    b == 32 || b == 9 || b == 10 || b == 13 || b == 11 || b == 12
}

/// Whether a byte is an ASCII decimal digit.
pub open spec fn spec_is_digit(b: u8) -> bool {
    48 <= b <= 57
}

/// One saturating accumulator step of baud parsing: `acc * 10 + d`,
/// saturating each operation at the largest 32-bit value.
pub open spec fn spec_baud_step(acc: u32, d: u32) -> u32 {
    let m = if acc * 10 > u32::MAX {
        u32::MAX
    } else {
        (acc * 10) as u32
    };
    if m + d > u32::MAX {
        u32::MAX
    } else {
        (m + d) as u32
    }
}

/// The baud rate read from the leading decimal digits of `s`.
pub open spec fn spec_parse_baud_acc(s: Seq<u8>, acc: u32) -> u32
    decreases s.len(),
{
    if s.len() == 0 || !spec_is_digit(s[0]) {
        acc
    } else {
        spec_parse_baud_acc(s.skip(1), spec_baud_step(acc, (s[0] - 48) as u32))
    }
}

/// The baud rate a baud string parses to.
pub open spec fn spec_parse_baud(s: Seq<u8>) -> u32 {
    spec_parse_baud_acc(s, 0)
}

/// The index of the first comma in `s`, or `s.len()` when there is none.
pub open spec fn spec_find_comma(s: Seq<u8>) -> int
    decreases s.len(),
{
    if s.len() == 0 {
        0
    } else if s[0] == 44 {
        0
    } else {
        1 + spec_find_comma(s.skip(1))
    }
}

/// The first comma index is within the string.
pub proof fn lemma_find_comma_range(s: Seq<u8>)
    ensures
        0 <= spec_find_comma(s) <= s.len(),
    decreases s.len(),
{
    if s.len() > 0 && s[0] != 44 {
        lemma_find_comma_range(s.skip(1));
    }
}

/// What a `console=` argument adds: a spec with the name truncated to 16
/// bytes and the baud read after the first comma; dropped when four specs
/// are already recorded.
pub open spec fn spec_apply_console(m: CmdlineModel, arg: Seq<u8>) -> CmdlineModel {
    if m.consoles.len() >= MAX_CONSOLE_SPECS {
        m
    } else {
        let comma = spec_find_comma(arg);
        let name_end = if comma >= MAX_CONSOLE_NAME {
            MAX_CONSOLE_NAME as int
        } else {
            comma
        };
        let baud: u32 = if comma < arg.len() {
            spec_parse_baud(arg.skip(comma + 1))
        } else {
            0
        };
        CmdlineModel {
            consoles: m.consoles.push(ConsoleModel { device: arg.take(name_end), baud }),
            ..m
        }
    }
}

/// What a `root=` argument sets: the path truncated to 64 bytes.
pub open spec fn spec_apply_root(m: CmdlineModel, arg: Seq<u8>) -> CmdlineModel {
    let keep = if arg.len() >= MAX_ROOT_PATH {
        MAX_ROOT_PATH as int
    } else {
        arg.len() as int
    };
    CmdlineModel { root: arg.take(keep), ..m }
}

/// The bytes of `usb_trace`.
pub open spec fn spec_usb_trace_token() -> Seq<u8> {
    seq![117u8, 115u8, 98u8, 95u8, 116u8, 114u8, 97u8, 99u8, 101u8]
}

/// The bytes of `console=`.
pub open spec fn spec_console_prefix() -> Seq<u8> {
    seq![99u8, 111u8, 110u8, 115u8, 111u8, 108u8, 101u8, 61u8]
}

/// The bytes of `root=`.
pub open spec fn spec_root_prefix() -> Seq<u8> {
    seq![114u8, 111u8, 111u8, 116u8, 61u8]
}

/// What one whitespace-separated token does to the state. Unknown tokens
/// change nothing.
pub open spec fn spec_apply_option(m: CmdlineModel, t: Seq<u8>) -> CmdlineModel {
    if t == spec_usb_trace_token() {
        CmdlineModel { usb_trace: true, ..m }
    } else if t.len() >= 8 && t.take(8) == spec_console_prefix() {
        spec_apply_console(m, t.skip(8))
    } else if t.len() >= 5 && t.take(5) == spec_root_prefix() {
        spec_apply_root(m, t.skip(5))
    } else {
        m
    }
}

/// The state after consuming the rest of the input `s`, with `tok` the
/// token bytes accumulated so far.
pub open spec fn spec_parse_acc(m: CmdlineModel, s: Seq<u8>, tok: Seq<u8>) -> CmdlineModel
    decreases s.len(),
{
    if s.len() == 0 {
        if tok.len() > 0 {
            spec_apply_option(m, tok)
        } else {
            m
        }
    } else if spec_is_ws(s[0]) {
        spec_parse_acc(
            if tok.len() > 0 {
                spec_apply_option(m, tok)
            } else {
                m
            },
            s.skip(1),
            Seq::empty(),
        )
    } else {
        spec_parse_acc(m, s.skip(1), tok.push(s[0]))
    }
}

/// The state a whole command line parses to, starting from `m`.
pub open spec fn spec_parse_cmdline(m: CmdlineModel, s: Seq<u8>) -> CmdlineModel {
    spec_parse_acc(m, s, Seq::empty())
}

/// Console specification from the command line.
#[derive(Clone, Debug)]
pub struct ConsoleSpec {
    /// Device name bytes (at most 16).
    pub device: Vec<u8>,
    /// Baud rate (0 = default).
    pub baud_rate: u32,
}

impl ConsoleSpec {
    /// A console spec with no device name and the default baud rate.
    pub fn empty() -> (r: ConsoleSpec)
        ensures
            r.device@.len() == 0,
            r.baud_rate == 0,
    {
        ConsoleSpec { device: Vec::new(), baud_rate: 0 }
    }

    /// The mathematical value of this spec.
    pub open spec fn model(self) -> ConsoleModel {
        ConsoleModel { device: self.device@, baud: self.baud_rate }
    }

    /// The device name bytes (e.g. `ttyS0`).
    pub fn device_name(&self) -> (r: &Vec<u8>)
        ensures
            r@ == self.device@,
    {
        &self.device
    }

    /// Whether this spec names the given device.
    pub fn matches(&self, name: &[u8]) -> (r: bool)
        ensures
            r == (self.device@ == name@),
    {
        if self.device.len() != name.len() {
            proof {
                assert(self.device@.len() != name@.len());
            }
            return false;
        }
        let n: usize = name.len();
        let mut i: usize = 0;
        while i < n
            invariant
                n == name@.len(),
                n == self.device@.len(),
                i <= n,
                forall|j: int| 0 <= j < i ==> self.device@[j] == name@[j],
            decreases n - i,
        {
            if self.device[i] != name[i] {
                return false;
            }
            i = i + 1;
        }
        proof {
            assert(self.device@ =~= name@);
        }
        true
    }
}

/// The parsed command-line state: console specs, root path, trace flag.
#[derive(Clone, Debug)]
pub struct CmdlineState {
    /// Console specifications, in the order given (at most 4).
    pub consoles: Vec<ConsoleSpec>,
    /// Root device path bytes (at most 64); empty means unset.
    pub root: Vec<u8>,
    /// Whether USB tracing was requested.
    pub usb_trace: bool,
}

impl CmdlineState {
    /// The mathematical value of this state.
    pub open spec fn model(self) -> CmdlineModel {
        CmdlineModel {
            consoles: self.consoles@.map(|i: int, c: ConsoleSpec| c.model()),
            root: self.root@,
            usb_trace: self.usb_trace,
        }
    }

    /// The state before any option was seen.
    pub fn new() -> (r: Self)
        ensures
            r.model().consoles.len() == 0,
            r.model().root.len() == 0,
            !r.model().usb_trace,
    {
        let r = CmdlineState { consoles: Vec::new(), root: Vec::new(), usb_trace: false };
        proof {
            assert(r.model().consoles =~= Seq::<ConsoleModel>::empty());
        }
        r
    }
}

/// Parse a baud-rate string: leading decimal digits, saturating; any
/// suffix such as `n8` is ignored.
fn parse_baud_rate(s: &[u8]) -> (r: u32)
    ensures
        r == spec_parse_baud(s@),
{
    let n: usize = s.len();
    let mut acc: u32 = 0;
    let mut i: usize = 0;
    proof {
        assert(s@.skip(0) =~= s@);
    }
    while i < n
        invariant
            n == s@.len(),
            i <= n,
            spec_parse_baud_acc(s@, 0) == spec_parse_baud_acc(s@.skip(i as int), acc),
        decreases n - i,
    {
        let b = s[i];
        proof {
            assert(s@.skip(i as int)[0] == s@[i as int]);
            assert(s@.skip(i as int).skip(1) =~= s@.skip(i + 1));
        }
        if b < 48 || b > 57 {
            return acc;
        }
        let d: u32 = (b - 48) as u32;
        let m: u32 = if acc > u32::MAX / 10 {
            u32::MAX
        } else {
            acc * 10
        };
        proof {
            assert(m == if acc * 10 > u32::MAX {
                u32::MAX
            } else {
                (acc * 10) as u32
            });
        }
        acc = if m > u32::MAX - d {
            u32::MAX
        } else {
            m + d
        };
        i = i + 1;
    }
    acc
}

/// Apply a `console=` argument: record a console spec unless four are
/// already recorded.
fn parse_console_option(state: &mut CmdlineState, arg: &[u8])
    ensures
        final(state).model() == spec_apply_console(old(state).model(), arg@),
{
    proof {
        lemma_find_comma_range(arg@);
    }
    if state.consoles.len() >= MAX_CONSOLE_SPECS {
        return ;
    }
    let n: usize = arg.len();
    let mut comma: usize = 0;
    proof {
        assert(arg@.skip(0) =~= arg@);
    }
    while comma < n && arg[comma] != 44
        invariant
            n == arg@.len(),
            comma <= n,
            spec_find_comma(arg@) == comma + spec_find_comma(arg@.skip(comma as int)),
            forall|j: int| 0 <= j < comma ==> arg@[j] != 44u8,
        decreases n - comma,
    {
        proof {
            assert(arg@.skip(comma as int)[0] == arg@[comma as int]);
            assert(arg@.skip(comma as int).skip(1) =~= arg@.skip(comma + 1));
        }
        comma = comma + 1;
    }
    proof {
        if comma < n {
            assert(arg@.skip(comma as int)[0] == arg@[comma as int]);
        }
        assert(spec_find_comma(arg@) == comma);
    }
    let name_end: usize = if comma >= MAX_CONSOLE_NAME {
        MAX_CONSOLE_NAME
    } else {
        comma
    };
    let mut device: Vec<u8> = Vec::new();
    let mut i: usize = 0;
    while i < name_end
        invariant
            name_end <= arg@.len(),
            i <= name_end,
            device@ == arg@.take(name_end as int).take(i as int),
        decreases name_end - i,
    {
        device.push(arg[i]);
        proof {
            assert(device@ =~= arg@.take(name_end as int).take(i + 1));
        }
        i = i + 1;
    }
    proof {
        assert(device@ =~= arg@.take(name_end as int));
    }
    let baud: u32 = if comma < n {
        parse_baud_rate(slice_skip(arg, comma + 1))
    } else {
        0
    };
    let spec = ConsoleSpec { device, baud_rate: baud };
    let ghost pre = state.model();
    state.consoles.push(spec);
    proof {
        assert(state.model().consoles =~= pre.consoles.push(
            ConsoleModel { device: arg@.take(name_end as int), baud },
        ));
        assert(state.model() == spec_apply_console(old(state).model(), arg@));
    }
}

/// The tail of a slice from `from` onward, as a fresh slice reference.
fn slice_skip<'a>(s: &'a [u8], from: usize) -> (r: &'a [u8])
    requires
        from <= s@.len(),
    ensures
        r@ == s@.skip(from as int),
{
    let r = vstd::slice::slice_subrange(s, from, s.len());
    proof {
        assert(r@ =~= s@.skip(from as int));
    }
    r
}

/// Apply a `root=` argument: record the path, truncated to 64 bytes.
fn parse_root_option(state: &mut CmdlineState, arg: &[u8])
    ensures
        final(state).model() == spec_apply_root(old(state).model(), arg@),
{
    let keep: usize = if arg.len() >= MAX_ROOT_PATH {
        MAX_ROOT_PATH
    } else {
        arg.len()
    };
    let mut path: Vec<u8> = Vec::new();
    let mut i: usize = 0;
    while i < keep
        invariant
            keep <= arg@.len(),
            i <= keep,
            path@ == arg@.take(keep as int).take(i as int),
        decreases keep - i,
    {
        path.push(arg[i]);
        proof {
            assert(path@ =~= arg@.take(keep as int).take(i + 1));
        }
        i = i + 1;
    }
    proof {
        assert(path@ =~= arg@.take(keep as int));
    }
    state.root = path;
    proof {
        assert(state.model().consoles =~= old(state).model().consoles);
        assert(state.model() == spec_apply_root(old(state).model(), arg@));
    }
}

/// Whether `t` equals the byte sequence `expect`.
fn token_eq(t: &Vec<u8>, expect: &[u8]) -> (r: bool)
    ensures
        r == (t@ == expect@),
{
    if t.len() != expect.len() {
        proof {
            assert(t@.len() != expect@.len());
        }
        return false;
    }
    let n: usize = expect.len();
    let mut i: usize = 0;
    while i < n
        invariant
            n == expect@.len(),
            n == t@.len(),
            i <= n,
            forall|j: int| 0 <= j < i ==> t@[j] == expect@[j],
        decreases n - i,
    {
        if t[i] != expect[i] {
            return false;
        }
        i = i + 1;
    }
    proof {
        assert(t@ =~= expect@);
    }
    true
}

/// Whether `t` starts with the byte sequence `prefix`.
fn token_starts_with(t: &Vec<u8>, prefix: &[u8]) -> (r: bool)
    ensures
        r == (t@.len() >= prefix@.len() && t@.take(prefix@.len() as int) == prefix@),
{
    if t.len() < prefix.len() {
        return false;
    }
    let n: usize = prefix.len();
    let mut i: usize = 0;
    while i < n
        invariant
            n == prefix@.len(),
            n <= t@.len(),
            i <= n,
            forall|j: int| 0 <= j < i ==> t@[j] == prefix@[j],
        decreases n - i,
    {
        if t[i] != prefix[i] {
            proof {
                assert(t@.take(n as int)[i as int] != prefix@[i as int]);
            }
            return false;
        }
        i = i + 1;
    }
    proof {
        assert(t@.take(n as int) =~= prefix@);
    }
    true
}

/// Apply one whitespace-separated token to the state.
fn handle_option(state: &mut CmdlineState, t: &Vec<u8>)
    ensures
        final(state).model() == spec_apply_option(old(state).model(), t@),
{
    let usb_trace: [u8; 9] = [117, 115, 98, 95, 116, 114, 97, 99, 101];
    let console_prefix: [u8; 8] = [99, 111, 110, 115, 111, 108, 101, 61];
    let root_prefix: [u8; 5] = [114, 111, 111, 116, 61];
    proof {
        assert(usb_trace@ =~= spec_usb_trace_token());
        assert(console_prefix@ =~= spec_console_prefix());
        assert(root_prefix@ =~= spec_root_prefix());
    }
    if token_eq(t, usb_trace.as_slice()) {
        state.usb_trace = true;
        proof {
            assert(state.model().consoles =~= old(state).model().consoles);
            assert(state.model() == spec_apply_option(old(state).model(), t@));
        }
    } else if token_starts_with(t, console_prefix.as_slice()) {
        parse_console_option(state, slice_skip(t.as_slice(), 8));
    } else if token_starts_with(t, root_prefix.as_slice()) {
        parse_root_option(state, slice_skip(t.as_slice(), 5));
    } else {
        proof {
            assert(state.model().consoles =~= old(state).model().consoles);
            assert(state.model() == spec_apply_option(old(state).model(), t@));
        }
    }
}

/// Whether a byte is an ASCII whitespace separator.
fn is_ws(b: u8) -> (r: bool)
    ensures
        r == spec_is_ws(b),
{
    b == 32 || b == 9 || b == 10 || b == 13 || b == 11 || b == 12
}

/// Parse a kernel command line and apply every option to the state:
/// `usb_trace`, `console=<device>[,<baud>]` and `root=<device>`; unknown
/// options are ignored.
#[verifier::loop_isolation(false)]
pub fn parse_cmdline(state: &mut CmdlineState, cmdline: &[u8])
    ensures
        final(state).model() == spec_parse_cmdline(old(state).model(), cmdline@),
{
    let n: usize = cmdline.len();
    let mut tok: Vec<u8> = Vec::new();
    let mut i: usize = 0;
    proof {
        assert(cmdline@.skip(0) =~= cmdline@);
        assert(tok@ =~= Seq::<u8>::empty());
    }
    while i < n
        invariant
            n == cmdline@.len(),
            i <= n,
            spec_parse_cmdline(old(state).model(), cmdline@) == spec_parse_acc(
                state.model(),
                cmdline@.skip(i as int),
                tok@,
            ),
        decreases n - i,
    {
        let b = cmdline[i];
        proof {
            assert(cmdline@.skip(i as int)[0] == cmdline@[i as int]);
            assert(cmdline@.skip(i as int).skip(1) =~= cmdline@.skip(i + 1));
        }
        if is_ws(b) {
            if tok.len() > 0 {
                handle_option(state, &tok);
                tok = Vec::new();
            }
            proof {
                assert(tok@ =~= Seq::<u8>::empty());
            }
        } else {
            tok.push(b);
        }
        i = i + 1;
    }
    if tok.len() > 0 {
        handle_option(state, &tok);
    }
}

/// Whether a console device of the given name was specified.
pub fn is_cmdline_console(state: &CmdlineState, name: &[u8]) -> (r: bool)
    ensures
        r == exists|i: int|
            0 <= i < state.consoles@.len() && (#[trigger] state.consoles@[i]).device@ == name@,
{
    let n: usize = state.consoles.len();
    let mut i: usize = 0;
    while i < n
        invariant
            n == state.consoles@.len(),
            i <= n,
            forall|j: int| 0 <= j < i ==> (#[trigger] state.consoles@[j]).device@ != name@,
        decreases n - i,
    {
        if state.consoles[i].matches(name) {
            return true;
        }
        i = i + 1;
    }
    false
}

/// The number of console specifications recorded.
pub fn cmdline_console_count(state: &CmdlineState) -> (r: usize)
    ensures
        r == state.consoles@.len(),
{
    state.consoles.len()
}

/// The console specification at `index`, or `None` past the end.
pub fn get_cmdline_console(state: &CmdlineState, index: usize) -> (r: Option<ConsoleSpec>)
    ensures
        r is Some <==> index < state.consoles@.len(),
        r is Some ==> r->Some_0.model() == state.consoles@[index as int].model(),
    {
    if index < state.consoles.len() {
        Some(state.consoles[index].clone_data())
    } else {
        None
    }
}

/// The primary console: the last one specified, or `None` when no
/// `console=` option was given.
pub fn primary_cmdline_console(state: &CmdlineState) -> (r: Option<ConsoleSpec>)
    ensures
        r is Some <==> state.consoles@.len() > 0,
        r is Some ==> r->Some_0.model() == state.consoles@.last().model(),
{
    if state.consoles.len() > 0 {
        Some(state.consoles[state.consoles.len() - 1].clone_data())
    } else {
        None
    }
}

/// The root device path, or `None` when no `root=` option was given.
pub fn get_root_device(state: &CmdlineState) -> (r: Option<Vec<u8>>)
    ensures
        r is Some <==> state.root@.len() > 0,
        r is Some ==> r->Some_0@ == state.root@,
{
    if state.root.len() > 0 {
        let mut out: Vec<u8> = Vec::new();
        let mut i: usize = 0;
        while i < state.root.len()
            invariant
                i <= state.root@.len(),
                out@ == state.root@.take(i as int),
            decreases state.root@.len() - i,
        {
            out.push(state.root[i]);
            proof {
                assert(out@ =~= state.root@.take(i + 1));
            }
            i = i + 1;
        }
        proof {
            assert(out@ =~= state.root@);
        }
        Some(out)
    } else {
        None
    }
}

impl ConsoleSpec {
    /// An owned copy of this console spec.
    pub fn clone_data(&self) -> (r: ConsoleSpec)
        ensures
            r.device@ == self.device@,
            r.baud_rate == self.baud_rate,
            r.model() == self.model(),
    {
        let mut device: Vec<u8> = Vec::new();
        let mut i: usize = 0;
        while i < self.device.len()
            invariant
                i <= self.device@.len(),
                device@ == self.device@.take(i as int),
            decreases self.device@.len() - i,
        {
            device.push(self.device[i]);
            proof {
                assert(device@ =~= self.device@.take(i + 1));
            }
            i = i + 1;
        }
        proof {
            assert(device@ =~= self.device@);
        }
        ConsoleSpec { device, baud_rate: self.baud_rate }
    }
}

} // verus!
