//! The line grammar: classifies one line of capture output into a typed
//! record, mirroring the layout of the tool's verbose hex-dump dialect.
//!
//! Three sub-grammars are tried in a fixed order (capture header line,
//! segment header line, hex-dump row); the first whose literal delimiters
//! match wins.  A line that runs out before a required delimiter is
//! "more input needed" rather than malformed, so a caller feeding a
//! growing stream can wait for the rest of the line.

use vstd::prelude::*;

verus! {

/// Byte value of the space character.
pub const SP: u8 = 32;
/// Byte value of the horizontal tab character.
pub const HT: u8 = 9;
/// Byte value of the line feed character.
pub const LF: u8 = 10;
/// Byte value of the form feed character.
pub const FF: u8 = 12;
/// Byte value of the carriage return character.
pub const CR: u8 = 13;
/// Byte value of ':'.
pub const COLON: u8 = 58;
/// Byte value of '.'.
pub const DOT: u8 = 46;
/// Byte value of '>'.
pub const GT: u8 = 62;
/// Byte value of 'I'.
pub const UC_I: u8 = 73;
/// Byte value of 'P'.
pub const UC_P: u8 = 80;

/// ASCII whitespace, as the token scanners understand it.
pub open spec fn is_ascii_ws(b: u8) -> bool {
    b == SP || b == HT || b == LF || b == FF || b == CR
}

/// The three classes of byte a token scan can stop at.
#[derive(Clone, Copy)]
pub enum StopAt {
    Whitespace,
    Linebreak,
    Colon,
}

/// Whether byte `b` ends a scan of class `c`.
pub open spec fn stops(c: StopAt, b: u8) -> bool {
    match c {
        StopAt::Whitespace => is_ascii_ws(b),
        StopAt::Linebreak => b == LF,
        StopAt::Colon => b == COLON,
    }
}

/// Index of the first byte at or after `i` that ends a scan of class `c`;
/// `s.len()` when no byte does.
pub open spec fn first_stop(s: Seq<u8>, i: int, c: StopAt) -> int
    decreases s.len() - i,
{
    if i < 0 || i >= s.len() {
        s.len() as int
    } else if stops(c, s[i]) {
        i
    } else {
        first_stop(s, i + 1, c)
    }
}

/// A position with no stopping byte before it and a stopping byte (or the
/// line's end) at it is exactly `first_stop`.
pub proof fn lemma_first_stop_at(s: Seq<u8>, i: int, c: StopAt, j: int)
    requires
        0 <= i <= j <= s.len(),
        forall|m: int| i <= m < j ==> !stops(c, s[m]),
        j == s.len() || stops(c, s[j]),
    ensures
        first_stop(s, i, c) == j,
    decreases j - i,
{
    if i < j {
        lemma_first_stop_at(s, i + 1, c, j);
    }
}

/// Scan `s` from position `i` for the first byte of class `c`.
fn scan_from(s: &[u8], i: usize, c: StopAt) -> (j: usize)
    requires
        i <= s@.len(),
    ensures
        j == first_stop(s@, i as int, c),
        i <= j <= s@.len(),
{
    let n = s.len();
    let mut k = i;
    while k < n
        invariant
            i <= k <= n == s@.len(),
            forall|m: int| i <= m < k ==> !stops(c, s@[m]),
        decreases n - k,
    {
        let b = s[k];
        let hit = match c {
            StopAt::Whitespace => b == SP || b == HT || b == LF || b == FF || b == CR,
            StopAt::Linebreak => b == LF,
            StopAt::Colon => b == COLON,
        };
        if hit {
            proof {
                lemma_first_stop_at(s@, i as int, c, k as int);
            }
            return k;
        }
        k = k + 1;
    }
    proof {
        lemma_first_stop_at(s@, i as int, c, n as int);
    }
    n
}

/// Outcome of matching a literal delimiter at a position.
#[derive(Clone, Copy, PartialEq, Eq, Structural)]
pub enum TagOutcome {
    /// The whole literal is present at the position.
    Matched,
    /// The line ends while still agreeing with the literal.
    MoreNeeded,
    /// Some byte of the line disagrees with the literal.
    NoTag,
}

/// What matching literal `lit` against `s` at position `i` yields.
pub open spec fn tag_at_spec(s: Seq<u8>, i: int, lit: Seq<u8>) -> TagOutcome {
    if i + lit.len() <= s.len() {
        if s.subrange(i, i + lit.len()) == lit {
            TagOutcome::Matched
        } else {
            TagOutcome::NoTag
        }
    } else {
        if s.subrange(i, s.len() as int) == lit.subrange(0, s.len() - i) {
            TagOutcome::MoreNeeded
        } else {
            TagOutcome::NoTag
        }
    }
}

/// Match the literal `lit` against `s` at position `i`.
fn tag_at(s: &[u8], i: usize, lit: &[u8]) -> (r: TagOutcome)
    requires
        i <= s@.len(),
    ensures
        r == tag_at_spec(s@, i as int, lit@),
{
    let n = s.len();
    let m = lit.len();
    let avail = n - i;
    let cmp = if m <= avail {
        m
    } else {
        avail
    };
    let mut k: usize = 0;
    while k < cmp
        invariant
            0 <= k <= cmp,
            i <= n == s@.len(),
            m == lit@.len(),
            avail == n - i,
            cmp == if m <= avail { m as int } else { avail as int },
            forall|q: int| 0 <= q < k ==> s@[i + q] == lit@[q],
        decreases cmp - k,
    {
        if s[i + k] != lit[k] {
            proof {
                if i + m <= n {
                    assert(s@.subrange(i as int, i + lit@.len())[k as int] != lit@[k as int]);
                } else {
                    assert(s@.subrange(i as int, s@.len() as int)[k as int]
                        != lit@.subrange(0, s@.len() - i)[k as int]);
                }
            }
            return TagOutcome::NoTag;
        }
        k = k + 1;
    }
    if m <= avail {
        proof {
            assert(s@.subrange(i as int, i + lit@.len()) =~= lit@);
        }
        TagOutcome::Matched
    } else {
        proof {
            assert(s@.subrange(i as int, s@.len() as int) =~= lit@.subrange(0, s@.len() - i));
        }
        TagOutcome::MoreNeeded
    }
}

/// The literal `" IP "` separating a timestamp from the frame info.
pub open spec fn lit_ip() -> Seq<u8> {
    seq![SP, UC_I, UC_P, SP]
}

/// The four-space indent that opens a segment header line.
pub open spec fn lit_indent() -> Seq<u8> {
    seq![SP, SP, SP, SP]
}

/// The literal `" > "` between the two endpoint tokens.
pub open spec fn lit_arrow() -> Seq<u8> {
    seq![SP, GT, SP]
}

/// The literal `":  "` after a hex-dump row's offset column.
pub open spec fn lit_data_sep() -> Seq<u8> {
    seq![COLON, SP, SP]
}

/// The two spaces between the hex column and the approximation column.
pub open spec fn lit_two_sp() -> Seq<u8> {
    seq![SP, SP]
}

/// Exec value of `lit_ip`.
fn lit_ip_vec() -> (v: Vec<u8>)
    ensures
        v@ == lit_ip(),
{
    let mut v: Vec<u8> = Vec::new();
    v.push(SP);
    v.push(UC_I);
    v.push(UC_P);
    v.push(SP);
    proof {
        assert(v@ =~= lit_ip());
    }
    v
}

/// Exec value of `lit_indent`.
fn lit_indent_vec() -> (v: Vec<u8>)
    ensures
        v@ == lit_indent(),
{
    let mut v: Vec<u8> = Vec::new();
    v.push(SP);
    v.push(SP);
    v.push(SP);
    v.push(SP);
    proof {
        assert(v@ =~= lit_indent());
    }
    v
}

/// Exec value of `lit_arrow`.
fn lit_arrow_vec() -> (v: Vec<u8>)
    ensures
        v@ == lit_arrow(),
{
    let mut v: Vec<u8> = Vec::new();
    v.push(SP);
    v.push(GT);
    v.push(SP);
    proof {
        assert(v@ =~= lit_arrow());
    }
    v
}

/// Exec value of `lit_data_sep`.
fn lit_data_sep_vec() -> (v: Vec<u8>)
    ensures
        v@ == lit_data_sep(),
{
    let mut v: Vec<u8> = Vec::new();
    v.push(COLON);
    v.push(SP);
    v.push(SP);
    proof {
        assert(v@ =~= lit_data_sep());
    }
    v
}

/// Exec value of `lit_two_sp`.
fn lit_two_sp_vec() -> (v: Vec<u8>)
    ensures
        v@ == lit_two_sp(),
{
    let mut v: Vec<u8> = Vec::new();
    v.push(SP);
    v.push(SP);
    proof {
        assert(v@ =~= lit_two_sp());
    }
    v
}

/// A connection endpoint: the bytes of a host and of a port, split out of
/// one address token.
#[derive(Debug, PartialEq, Eq)]
pub struct HostPort {
    pub host: Vec<u8>,
    pub port: Vec<u8>,
}

/// Mathematical image of a `HostPort`.
pub struct HostPortV {
    pub host: Seq<u8>,
    pub port: Seq<u8>,
}

impl View for HostPort {
    type V = HostPortV;

    open spec fn view(&self) -> HostPortV {
        HostPortV { host: self.host@, port: self.port@ }
    }
}

/// Index of the last '.' of `s`; -1 when `s` has none.
pub open spec fn last_dot(s: Seq<u8>) -> int
    decreases s.len(),
{
    if s.len() == 0 {
        -1
    } else if s[s.len() - 1] == DOT {
        s.len() - 1
    } else {
        last_dot(s.drop_last())
    }
}

/// `last_dot` is in range, sits on a '.', and nothing after it is a '.';
/// when it is -1 the token has no '.' at all.
pub proof fn lemma_last_dot_props(s: Seq<u8>)
    ensures
        -1 <= last_dot(s) < s.len(),
        last_dot(s) >= 0 ==> s[last_dot(s)] == DOT,
        forall|m: int| last_dot(s) < m < s.len() ==> s[m] != DOT,
        last_dot(s) == -1 ==> forall|m: int| 0 <= m < s.len() ==> s[m] != DOT,
    decreases s.len(),
{
    if s.len() > 0 && s[s.len() - 1] != DOT {
        lemma_last_dot_props(s.drop_last());
        assert(forall|m: int| 0 <= m < s.len() - 1 ==> s.drop_last()[m] == s[m]);
    }
}

/// The host/port image of an address token: everything before the last
/// '.' is the host, everything after it is the port.
pub open spec fn host_port_of(s: Seq<u8>) -> HostPortV {
    HostPortV {
        host: s.subrange(0, last_dot(s)),
        port: s.subrange(last_dot(s) + 1, s.len() as int),
    }
}

/// Split an address token at its last '.'.  Hosts may themselves contain
/// the separator (dotted address octets), so only the suffix after the
/// rightmost one is the port.  A token with no '.' has no port: `None`.
pub fn parse_host_port(input: &[u8]) -> (r: Option<HostPort>)
    ensures
        -1 <= last_dot(input@) < input@.len(),
        last_dot(input@) >= 0 ==> (r matches Some(hp) && hp@ == host_port_of(input@)),
        last_dot(input@) == -1 ==> r is None,
{
    proof {
        lemma_last_dot_props(input@);
    }
    let n = input.len();
    let mut k = n;
    while k > 0
        invariant
            0 <= k <= n == input@.len(),
            forall|m: int| k <= m < n ==> input@[m] != DOT,
        decreases k,
    {
        k = k - 1;
        if input[k] == DOT {
            proof {
                assert(last_dot(input@) == k as int) by {
                    lemma_last_dot_down(input@, n as int, k as int);
                }
            }
            let host = vstd::slice::slice_to_vec(&input[0..k]);
            let port = vstd::slice::slice_to_vec(&input[k + 1..n]);
            return Some(HostPort { host, port });
        }
    }
    proof {
        assert(last_dot(input@) == -1) by {
            lemma_last_dot_down(input@, n as int, -1);
        }
    }
    None
}

/// A position carrying a '.' with none after it is exactly `last_dot`;
/// with `j == -1`, a token with no '.' at all has `last_dot` -1.
proof fn lemma_last_dot_down(s: Seq<u8>, n: int, j: int)
    requires
        n == s.len(),
        -1 <= j < n,
        forall|m: int| j < m < n ==> s[m] != DOT,
        j >= 0 ==> s[j] == DOT,
    ensures
        last_dot(s) == j,
    decreases n,
{
    if n > 0 {
        if j == n - 1 {
        } else {
            assert(s[n - 1] != DOT);
            assert(s.drop_last().len() == n - 1);
            assert(forall|m: int| j < m < n - 1 ==> s.drop_last()[m] == s[m]);
            lemma_last_dot_down(s.drop_last(), n - 1, j);
        }
    }
}

/// One classified line of capture output.
#[derive(Debug, PartialEq, Eq)]
pub enum TcpdumpLine {
    /// A capture-level header: timestamp and frame info, both opaque spans.
    Ip(Vec<u8>, Vec<u8>),
    /// A per-segment header: source endpoint, destination endpoint, info span.
    Tcp(HostPort, HostPort, Vec<u8>),
    /// One hex-dump row: the fixed-width hex column and its printable
    /// approximation.
    Data(Vec<u8>, Vec<u8>),
}

/// Mathematical image of a `TcpdumpLine`.
pub enum LineV {
    Ip(Seq<u8>, Seq<u8>),
    Tcp(HostPortV, HostPortV, Seq<u8>),
    Data(Seq<u8>, Seq<u8>),
}

impl View for TcpdumpLine {
    type V = LineV;

    open spec fn view(&self) -> LineV {
        match self {
            TcpdumpLine::Ip(ts, fi) => LineV::Ip(ts@, fi@),
            TcpdumpLine::Tcp(src, dst, info) => LineV::Tcp(src@, dst@, info@),
            TcpdumpLine::Data(hx, ap) => LineV::Data(hx@, ap@),
        }
    }
}

/// Outcome of one sub-grammar on one line: a record plus the index where
/// the unconsumed rest begins, or one of three ways to stop.
pub enum ParseV {
    /// The sub-grammar matched; the rest of the line starts at the index.
    Done(LineV, int),
    /// The line ended while the sub-grammar could still match: wait for
    /// more bytes.
    MoreNeeded,
    /// A required delimiter is absent: this sub-grammar does not apply.
    NoMatch,
    /// An endpoint token carries no '.' separator: fatal, whatever the
    /// later sub-grammars would say.
    BadHost,
}

/// The capture-header sub-grammar: a non-whitespace timestamp token,
/// the literal `" IP "`, then everything up to the line break.
pub open spec fn spec_ip_line(s: Seq<u8>) -> ParseV {
    let ts_end = first_stop(s, 0, StopAt::Whitespace);
    if ts_end == s.len() {
        ParseV::MoreNeeded
    } else if ts_end == 0 {
        ParseV::NoMatch
    } else {
        match tag_at_spec(s, ts_end, lit_ip()) {
            TagOutcome::Matched => {
                let fi_end = first_stop(s, ts_end + 4, StopAt::Linebreak);
                if fi_end == s.len() {
                    ParseV::MoreNeeded
                } else if fi_end == ts_end + 4 {
                    ParseV::NoMatch
                } else {
                    ParseV::Done(
                        LineV::Ip(s.subrange(0, ts_end), s.subrange(ts_end + 4, fi_end)),
                        fi_end,
                    )
                }
            }
            TagOutcome::MoreNeeded => ParseV::MoreNeeded,
            TagOutcome::NoTag => ParseV::NoMatch,
        }
    }
}

/// The segment-header sub-grammar: a four-space indent, a non-whitespace
/// source token, the literal `" > "`, a destination token scanned up to
/// the next ':' (never up to whitespace: bracketed flag lists later in
/// the line may hold spaces), then everything up to the line break.
/// Each endpoint token is split at its last '.'; a token with none is
/// fatal.
pub open spec fn spec_tcp_line(s: Seq<u8>) -> ParseV {
    match tag_at_spec(s, 0, lit_indent()) {
        TagOutcome::Matched => {
            let src_end = first_stop(s, 4, StopAt::Whitespace);
            if src_end == s.len() {
                ParseV::MoreNeeded
            } else if src_end == 4 {
                ParseV::NoMatch
            } else if last_dot(s.subrange(4, src_end)) == -1 {
                ParseV::BadHost
            } else {
                match tag_at_spec(s, src_end, lit_arrow()) {
                    TagOutcome::Matched => {
                        let dst_end = first_stop(s, src_end + 3, StopAt::Colon);
                        if dst_end == s.len() {
                            ParseV::MoreNeeded
                        } else if dst_end == src_end + 3 {
                            ParseV::NoMatch
                        } else if last_dot(s.subrange(src_end + 3, dst_end)) == -1 {
                            ParseV::BadHost
                        } else {
                            let info_end = first_stop(s, dst_end, StopAt::Linebreak);
                            if info_end == s.len() {
                                ParseV::MoreNeeded
                            } else if info_end == dst_end {
                                ParseV::NoMatch
                            } else {
                                ParseV::Done(
                                    LineV::Tcp(
                                        host_port_of(s.subrange(4, src_end)),
                                        host_port_of(s.subrange(src_end + 3, dst_end)),
                                        s.subrange(dst_end, info_end),
                                    ),
                                    info_end,
                                )
                            }
                        }
                    }
                    TagOutcome::MoreNeeded => ParseV::MoreNeeded,
                    TagOutcome::NoTag => ParseV::NoMatch,
                }
            }
        }
        TagOutcome::MoreNeeded => ParseV::MoreNeeded,
        TagOutcome::NoTag => ParseV::NoMatch,
    }
}

/// Width of the hex column of a hex-dump row: sixteen two-digit groups
/// in pairs, separated by spaces.
pub const HEX_WIDTH: usize = 39;

/// The hex-dump-row sub-grammar: an offset column scanned up to ':'
/// (and discarded), the literal `":  "`, exactly `HEX_WIDTH` bytes of
/// hex column, two spaces, then the printable approximation up to the
/// line break.
pub open spec fn spec_data_line(s: Seq<u8>) -> ParseV {
    let off_end = first_stop(s, 0, StopAt::Colon);
    if off_end == s.len() {
        ParseV::MoreNeeded
    } else if off_end == 0 {
        ParseV::NoMatch
    } else {
        match tag_at_spec(s, off_end, lit_data_sep()) {
            TagOutcome::Matched => {
                if s.len() - (off_end + 3) < 39 {
                    ParseV::MoreNeeded
                } else {
                    let hex_end = off_end + 3 + 39;
                    match tag_at_spec(s, hex_end, lit_two_sp()) {
                        TagOutcome::Matched => {
                            let ap_end = first_stop(s, hex_end + 2, StopAt::Linebreak);
                            if ap_end == s.len() {
                                ParseV::MoreNeeded
                            } else if ap_end == hex_end + 2 {
                                ParseV::NoMatch
                            } else {
                                ParseV::Done(
                                    LineV::Data(
                                        s.subrange(off_end + 3, hex_end),
                                        s.subrange(hex_end + 2, ap_end),
                                    ),
                                    ap_end,
                                )
                            }
                        }
                        TagOutcome::MoreNeeded => ParseV::MoreNeeded,
                        TagOutcome::NoTag => ParseV::NoMatch,
                    }
                }
            }
            TagOutcome::MoreNeeded => ParseV::MoreNeeded,
            TagOutcome::NoTag => ParseV::NoMatch,
        }
    }
}

/// The whole grammar: the three sub-grammars in priority order.  A later
/// one is tried only when the earlier returns `NoMatch`; `MoreNeeded`
/// and `BadHost` stop the alternation at once.  The order matters: a
/// hex-dump row's offset column could otherwise pass for a timestamp.
pub open spec fn spec_line(s: Seq<u8>) -> ParseV {
    match spec_ip_line(s) {
        ParseV::NoMatch => match spec_tcp_line(s) {
            ParseV::NoMatch => spec_data_line(s),
            other => other,
        },
        other => other,
    }
}

/// Why a sub-grammar stopped without producing a record.
#[derive(Debug, Clone, Copy, PartialEq, Eq, Structural)]
pub enum SubErr {
    /// The line ended too early: wait for more bytes.
    MoreInput,
    /// A required delimiter is absent.
    NoMatch,
    /// An endpoint token carries no '.' separator.
    BadHost,
}

/// Take one or more bytes until a byte of class `c`; the stopping byte
/// is left in the rest.
fn split_at_stop(input: &[u8], c: StopAt) -> (r: Result<(&[u8], &[u8]), SubErr>)
    ensures
        ({
            let fs = first_stop(input@, 0, c);
            &&& fs == input@.len() ==> r == Err::<(&[u8], &[u8]), SubErr>(SubErr::MoreInput)
            &&& (fs == 0 && 0 < input@.len()) ==> r == Err::<(&[u8], &[u8]), SubErr>(
                SubErr::NoMatch,
            )
            &&& (0 < fs < input@.len()) ==> (r matches Ok(p) && p.1@ == input@.subrange(0, fs)
                && p.0@ == input@.subrange(fs, input@.len() as int))
        }),
{
    let n = input.len();
    let fs = scan_from(input, 0, c);
    if fs == n {
        Err(SubErr::MoreInput)
    } else if fs == 0 {
        Err(SubErr::NoMatch)
    } else {
        Ok((&input[fs..n], &input[0..fs]))
    }
}

/// Take one or more non-whitespace bytes; the whitespace byte that ends
/// the token is left in the rest.
pub fn not_whitespace(input: &[u8]) -> (r: Result<(&[u8], &[u8]), SubErr>)
    ensures
        ({
            let fs = first_stop(input@, 0, StopAt::Whitespace);
            &&& fs == input@.len() ==> r == Err::<(&[u8], &[u8]), SubErr>(SubErr::MoreInput)
            &&& (fs == 0 && 0 < input@.len()) ==> r == Err::<(&[u8], &[u8]), SubErr>(
                SubErr::NoMatch,
            )
            &&& (0 < fs < input@.len()) ==> (r matches Ok(p) && p.1@ == input@.subrange(0, fs)
                && p.0@ == input@.subrange(fs, input@.len() as int))
        }),
{
    split_at_stop(input, StopAt::Whitespace)
}

/// Take one or more bytes up to the line break; the line break is left
/// in the rest.
pub fn not_linebreak(input: &[u8]) -> (r: Result<(&[u8], &[u8]), SubErr>)
    ensures
        ({
            let fs = first_stop(input@, 0, StopAt::Linebreak);
            &&& fs == input@.len() ==> r == Err::<(&[u8], &[u8]), SubErr>(SubErr::MoreInput)
            &&& (fs == 0 && 0 < input@.len()) ==> r == Err::<(&[u8], &[u8]), SubErr>(
                SubErr::NoMatch,
            )
            &&& (0 < fs < input@.len()) ==> (r matches Ok(p) && p.1@ == input@.subrange(0, fs)
                && p.0@ == input@.subrange(fs, input@.len() as int))
        }),
{
    split_at_stop(input, StopAt::Linebreak)
}

/// Take one or more bytes up to the next ':'; the ':' is left in the
/// rest.
pub fn not_colon(input: &[u8]) -> (r: Result<(&[u8], &[u8]), SubErr>)
    ensures
        ({
            let fs = first_stop(input@, 0, StopAt::Colon);
            &&& fs == input@.len() ==> r == Err::<(&[u8], &[u8]), SubErr>(SubErr::MoreInput)
            &&& (fs == 0 && 0 < input@.len()) ==> r == Err::<(&[u8], &[u8]), SubErr>(
                SubErr::NoMatch,
            )
            &&& (0 < fs < input@.len()) ==> (r matches Ok(p) && p.1@ == input@.subrange(0, fs)
                && p.0@ == input@.subrange(fs, input@.len() as int))
        }),
{
    split_at_stop(input, StopAt::Colon)
}

/// The timestamp token that opens a capture-header line.
pub fn parse_timestamp(input: &[u8]) -> (r: Result<(&[u8], &[u8]), SubErr>)
    ensures
        ({
            let fs = first_stop(input@, 0, StopAt::Whitespace);
            &&& fs == input@.len() ==> r == Err::<(&[u8], &[u8]), SubErr>(SubErr::MoreInput)
            &&& (fs == 0 && 0 < input@.len()) ==> r == Err::<(&[u8], &[u8]), SubErr>(
                SubErr::NoMatch,
            )
            &&& (0 < fs < input@.len()) ==> (r matches Ok(p) && p.1@ == input@.subrange(0, fs)
                && p.0@ == input@.subrange(fs, input@.len() as int))
        }),
{
    not_whitespace(input)
}

/// The frame-info span of a capture-header line: the rest of the line.
pub fn frame_info(input: &[u8]) -> (r: Result<(&[u8], &[u8]), SubErr>)
    ensures
        ({
            let fs = first_stop(input@, 0, StopAt::Linebreak);
            &&& fs == input@.len() ==> r == Err::<(&[u8], &[u8]), SubErr>(SubErr::MoreInput)
            &&& (fs == 0 && 0 < input@.len()) ==> r == Err::<(&[u8], &[u8]), SubErr>(
                SubErr::NoMatch,
            )
            &&& (0 < fs < input@.len()) ==> (r matches Ok(p) && p.1@ == input@.subrange(0, fs)
                && p.0@ == input@.subrange(fs, input@.len() as int))
        }),
{
    not_linebreak(input)
}

/// A capture-header line: `<timestamp>` + `" IP "` + `<frame info>`.
pub fn parse_ip_line(input: &[u8]) -> (r: Result<(&[u8], TcpdumpLine), SubErr>)
    ensures
        match spec_ip_line(input@) {
            ParseV::Done(v, e) => r matches Ok(p) && p.1@ == v && p.0@ == input@.subrange(
                e,
                input@.len() as int,
            ),
            ParseV::MoreNeeded => r == Err::<(&[u8], TcpdumpLine), SubErr>(SubErr::MoreInput),
            ParseV::NoMatch => r == Err::<(&[u8], TcpdumpLine), SubErr>(SubErr::NoMatch),
            ParseV::BadHost => r == Err::<(&[u8], TcpdumpLine), SubErr>(SubErr::BadHost),
        },
{
    let n = input.len();
    let ts_end = scan_from(input, 0, StopAt::Whitespace);
    if ts_end == n {
        return Err(SubErr::MoreInput);
    }
    if ts_end == 0 {
        return Err(SubErr::NoMatch);
    }
    let lit = lit_ip_vec();
    match tag_at(input, ts_end, lit.as_slice()) {
        TagOutcome::Matched => {
            let fi_start = ts_end + 4;
            let fi_end = scan_from(input, fi_start, StopAt::Linebreak);
            if fi_end == n {
                return Err(SubErr::MoreInput);
            }
            if fi_end == fi_start {
                return Err(SubErr::NoMatch);
            }
            let ts = vstd::slice::slice_to_vec(&input[0..ts_end]);
            let fi = vstd::slice::slice_to_vec(&input[fi_start..fi_end]);
            Ok((&input[fi_end..n], TcpdumpLine::Ip(ts, fi)))
        }
        TagOutcome::MoreNeeded => Err(SubErr::MoreInput),
        TagOutcome::NoTag => Err(SubErr::NoMatch),
    }
}

/// A segment-header line: indent, source endpoint, `" > "`, destination
/// endpoint up to ':', then the info span.
pub fn parse_tcp_line(input: &[u8]) -> (r: Result<(&[u8], TcpdumpLine), SubErr>)
    ensures
        match spec_tcp_line(input@) {
            ParseV::Done(v, e) => r matches Ok(p) && p.1@ == v && p.0@ == input@.subrange(
                e,
                input@.len() as int,
            ),
            ParseV::MoreNeeded => r == Err::<(&[u8], TcpdumpLine), SubErr>(SubErr::MoreInput),
            ParseV::NoMatch => r == Err::<(&[u8], TcpdumpLine), SubErr>(SubErr::NoMatch),
            ParseV::BadHost => r == Err::<(&[u8], TcpdumpLine), SubErr>(SubErr::BadHost),
        },
{
    let n = input.len();
    let indent = lit_indent_vec();
    match tag_at(input, 0, indent.as_slice()) {
        TagOutcome::Matched => {
            let src_end = scan_from(input, 4, StopAt::Whitespace);
            if src_end == n {
                return Err(SubErr::MoreInput);
            }
            if src_end == 4 {
                return Err(SubErr::NoMatch);
            }
            let src = match parse_host_port(&input[4..src_end]) {
                Some(hp) => hp,
                None => {
                    return Err(SubErr::BadHost);
                }
            };
            let arrow = lit_arrow_vec();
            match tag_at(input, src_end, arrow.as_slice()) {
                TagOutcome::Matched => {
                    let dst_start = src_end + 3;
                    let dst_end = scan_from(input, dst_start, StopAt::Colon);
                    if dst_end == n {
                        return Err(SubErr::MoreInput);
                    }
                    if dst_end == dst_start {
                        return Err(SubErr::NoMatch);
                    }
                    let dst = match parse_host_port(&input[dst_start..dst_end]) {
                        Some(hp) => hp,
                        None => {
                            return Err(SubErr::BadHost);
                        }
                    };
                    let info_end = scan_from(input, dst_end, StopAt::Linebreak);
                    if info_end == n {
                        return Err(SubErr::MoreInput);
                    }
                    if info_end == dst_end {
                        return Err(SubErr::NoMatch);
                    }
                    let info = vstd::slice::slice_to_vec(&input[dst_end..info_end]);
                    Ok((&input[info_end..n], TcpdumpLine::Tcp(src, dst, info)))
                }
                TagOutcome::MoreNeeded => Err(SubErr::MoreInput),
                TagOutcome::NoTag => Err(SubErr::NoMatch),
            }
        }
        TagOutcome::MoreNeeded => Err(SubErr::MoreInput),
        TagOutcome::NoTag => Err(SubErr::NoMatch),
    }
}

/// A hex-dump row: offset column up to ':', `":  "`, exactly
/// `HEX_WIDTH` bytes of hex column, two spaces, then the printable
/// approximation span.
pub fn parse_data_line(input: &[u8]) -> (r: Result<(&[u8], TcpdumpLine), SubErr>)
    ensures
        match spec_data_line(input@) {
            ParseV::Done(v, e) => r matches Ok(p) && p.1@ == v && p.0@ == input@.subrange(
                e,
                input@.len() as int,
            ),
            ParseV::MoreNeeded => r == Err::<(&[u8], TcpdumpLine), SubErr>(SubErr::MoreInput),
            ParseV::NoMatch => r == Err::<(&[u8], TcpdumpLine), SubErr>(SubErr::NoMatch),
            ParseV::BadHost => r == Err::<(&[u8], TcpdumpLine), SubErr>(SubErr::BadHost),
        },
{
    let n = input.len();
    let off_end = scan_from(input, 0, StopAt::Colon);
    if off_end == n {
        return Err(SubErr::MoreInput);
    }
    if off_end == 0 {
        return Err(SubErr::NoMatch);
    }
    let sep = lit_data_sep_vec();
    match tag_at(input, off_end, sep.as_slice()) {
        TagOutcome::Matched => {
            let hex_start = off_end + 3;
            if n - hex_start < HEX_WIDTH {
                return Err(SubErr::MoreInput);
            }
            let hex_end = hex_start + HEX_WIDTH;
            let two = lit_two_sp_vec();
            match tag_at(input, hex_end, two.as_slice()) {
                TagOutcome::Matched => {
                    let ap_start = hex_end + 2;
                    let ap_end = scan_from(input, ap_start, StopAt::Linebreak);
                    if ap_end == n {
                        return Err(SubErr::MoreInput);
                    }
                    if ap_end == ap_start {
                        return Err(SubErr::NoMatch);
                    }
                    let hx = vstd::slice::slice_to_vec(&input[hex_start..hex_end]);
                    let ap = vstd::slice::slice_to_vec(&input[ap_start..ap_end]);
                    Ok((&input[ap_end..n], TcpdumpLine::Data(hx, ap)))
                }
                TagOutcome::MoreNeeded => Err(SubErr::MoreInput),
                TagOutcome::NoTag => Err(SubErr::NoMatch),
            }
        }
        TagOutcome::MoreNeeded => Err(SubErr::MoreInput),
        TagOutcome::NoTag => Err(SubErr::NoMatch),
    }
}

/// How parsing one line can fail for the caller.
#[derive(Debug, PartialEq, Eq)]
pub enum LineError {
    /// The line ended while some sub-grammar could still match.
    Incomplete,
    /// No sub-grammar applies, or an endpoint token has no '.'; carries
    /// the offending bytes for the diagnostic.
    Malformed(Vec<u8>),
}

/// Classify one line: the three sub-grammars in priority order.
pub fn tcpdump_parser(input: &[u8]) -> (r: Result<(&[u8], TcpdumpLine), LineError>)
    ensures
        match spec_line(input@) {
            ParseV::Done(v, e) => r matches Ok(p) && p.1@ == v && p.0@ == input@.subrange(
                e,
                input@.len() as int,
            ),
            ParseV::MoreNeeded => r matches Err(le) && le is Incomplete,
            ParseV::NoMatch => r matches Err(LineError::Malformed(b)) && b@ == input@,
            ParseV::BadHost => r matches Err(LineError::Malformed(b)) && b@ == input@,
        },
{
    match parse_ip_line(input) {
        Ok(p) => Ok(p),
        Err(SubErr::MoreInput) => Err(LineError::Incomplete),
        Err(SubErr::BadHost) => Err(LineError::Malformed(vstd::slice::slice_to_vec(input))),
        Err(SubErr::NoMatch) => match parse_tcp_line(input) {
            Ok(p) => Ok(p),
            Err(SubErr::MoreInput) => Err(LineError::Incomplete),
            Err(SubErr::BadHost) => Err(LineError::Malformed(vstd::slice::slice_to_vec(input))),
            Err(SubErr::NoMatch) => match parse_data_line(input) {
                Ok(p) => Ok(p),
                Err(SubErr::MoreInput) => Err(LineError::Incomplete),
                Err(SubErr::BadHost) => Err(
                    LineError::Malformed(vstd::slice::slice_to_vec(input)),
                ),
                Err(SubErr::NoMatch) => Err(
                    LineError::Malformed(vstd::slice::slice_to_vec(input)),
                ),
            },
        },
    }
}

/// Law: every line of the form `<ts> IP <rest>` — a non-empty
/// whitespace-free timestamp, the literal separator, a non-empty
/// line-break-free rest, the line break — parses to exactly that
/// timestamp and that rest, byte for byte, with everything before the
/// line break consumed.
pub proof fn lemma_ip_line_shape(ts: Seq<u8>, fi: Seq<u8>, tail: Seq<u8>)
    requires
        ts.len() > 0,
        forall|i: int| 0 <= i < ts.len() ==> !is_ascii_ws(ts[i]),
        fi.len() > 0,
        forall|i: int| 0 <= i < fi.len() ==> fi[i] != LF,
    ensures
        ({
            let s = ts + lit_ip() + fi + seq![LF] + tail;
            spec_line(s) == ParseV::Done(LineV::Ip(ts, fi), ts.len() + 4 + fi.len() as int)
        }),
{
    let s = ts + lit_ip() + fi + seq![LF] + tail;
    let t: int = ts.len() as int;
    let f: int = fi.len() as int;
    assert(s.len() == t + 4 + f + 1 + tail.len());
    assert forall|m: int| 0 <= m < t implies s[m] == ts[m] by {}
    assert forall|m: int| 0 <= m < 4 implies s[t + m] == lit_ip()[m] by {}
    assert forall|m: int| 0 <= m < f implies s[t + 4 + m] == fi[m] by {}
    assert(s[t + 4 + f] == LF);
    assert(s[t] == SP);
    lemma_first_stop_at(s, 0, StopAt::Whitespace, t);
    assert(s.subrange(t, t + 4) =~= lit_ip());
    assert(tag_at_spec(s, t, lit_ip()) == TagOutcome::Matched);
    lemma_first_stop_at(s, t + 4, StopAt::Linebreak, t + 4 + f);
    assert(s.subrange(0, t) =~= ts);
    assert(s.subrange(t + 4, t + 4 + f) =~= fi);
    assert(spec_ip_line(s) == ParseV::Done(LineV::Ip(ts, fi), t + 4 + f));
}

/// Law: an address token built as `<host> '.' <port>`, with no '.'
/// anywhere in the port, splits at exactly that rightmost '.': the
/// prefix is the host, the suffix is the port.
pub proof fn lemma_host_port_last_separator(h: Seq<u8>, p: Seq<u8>)
    requires
        forall|i: int| 0 <= i < p.len() ==> p[i] != DOT,
    ensures
        host_port_of(h + seq![DOT] + p) == (HostPortV { host: h, port: p }),
{
    let s = h + seq![DOT] + p;
    let k: int = h.len() as int;
    assert(s[k] == DOT);
    assert forall|m: int| k < m < s.len() implies s[m] != DOT by {
        assert(s[m] == p[m - k - 1]);
    }
    lemma_last_dot_down(s, s.len() as int, k);
    assert(s.subrange(0, k) =~= h);
    assert(s.subrange(k + 1, s.len() as int) =~= p);
}

} // verus!
