//! The section parser: a line-oriented state machine that turns the raw
//! configuration text into a [`ParsedInfo`] registry of host records, scalar
//! settings and verbatim template blocks.
//!
//! The grammar is line based.  In the default mode a line is, by its leading
//! token, a section start marker, a scalar setting (`domain`,
//! `dns_file_name`, `reverse_dns_file_name`, `dhcp_file_name`) or a host line
//! `[mac] ip name [name ...]`; `;` starts an inline comment, and blank or
//! comment-only lines are skipped.  Inside a section every line up to the
//! matching end marker is captured verbatim.

use vstd::prelude::*;
use vstd::string::*;

use crate::text::{
    spec_decimal, spec_split, spec_strip_comment, spec_tokens, split_on, str_eq, strip_comment,
    tokenize, usize_to_string,
};

verus! {

// ---------------------------------------------------------------------------
// The parsed registry and its mathematical view
// ---------------------------------------------------------------------------
/// One host line: an optional hardware address, an IPv4 address and one or
/// more names, the first of which is the primary name.
#[derive(Debug)]
pub struct Line {
    pub number: usize,
    pub _text: String,
    pub mac: Option<String>,
    pub ip: String,
    pub names: Vec<String>,
}

#[verifier::ext_equal]
pub ghost struct LineV {
    pub number: int,
    pub text: Seq<char>,
    pub mac: Option<Seq<char>>,
    pub ip: Seq<char>,
    pub names: Seq<Seq<char>>,
}

impl View for Line {
    type V = LineV;

    open spec fn view(&self) -> LineV {
        LineV {
            number: self.number as int,
            text: self._text@,
            mac: match self.mac {
                Some(m) => Some(m@),
                None => None,
            },
            ip: self.ip@,
            names: self.names.deep_view(),
        }
    }
}

/// The whole parsed configuration: host records in source order, the four
/// scalar settings and the three verbatim template blocks.
#[derive(Debug)]
pub struct ParsedInfo {
    pub ip_lines: Vec<Line>,
    pub domain: String,
    pub dns_prefix: String,
    pub dns_suffix: String,
    pub dhcp_prefix: String,
    pub dns_file_name: String,
    pub reverse_dns_file_name: String,
    pub dhcp_file_name: String,
}

#[verifier::ext_equal]
pub ghost struct ParsedInfoV {
    pub ip_lines: Seq<LineV>,
    pub domain: Seq<char>,
    pub dns_prefix: Seq<char>,
    pub dns_suffix: Seq<char>,
    pub dhcp_prefix: Seq<char>,
    pub dns_file_name: Seq<char>,
    pub reverse_dns_file_name: Seq<char>,
    pub dhcp_file_name: Seq<char>,
}

pub open spec fn line_views(v: Seq<Line>) -> Seq<LineV> {
    v.map_values(|l: Line| l@)
}

impl View for ParsedInfo {
    type V = ParsedInfoV;

    open spec fn view(&self) -> ParsedInfoV {
        ParsedInfoV {
            ip_lines: line_views(self.ip_lines@),
            domain: self.domain@,
            dns_prefix: self.dns_prefix@,
            dns_suffix: self.dns_suffix@,
            dhcp_prefix: self.dhcp_prefix@,
            dns_file_name: self.dns_file_name@,
            reverse_dns_file_name: self.reverse_dns_file_name@,
            dhcp_file_name: self.dhcp_file_name@,
        }
    }
}

/// Every host record of a registry carries at least one name; the parser
/// never produces a record without one.
pub open spec fn registry_wf(p: ParsedInfoV) -> bool {
    forall|i: int| 0 <= i < p.ip_lines.len() ==> p.ip_lines[i].names.len() >= 1
}

// ---------------------------------------------------------------------------
// Errors
// ---------------------------------------------------------------------------
/// The four scalar configuration keys.
#[derive(Clone, Copy, Debug, PartialEq, Eq, Structural)]
pub enum ScalarKey {
    Domain,
    DnsFileName,
    ReverseDnsFileName,
    DhcpFileName,
}

/// The three verbatim sections.
#[derive(Clone, Copy, Debug, PartialEq, Eq, Structural)]
pub enum Section {
    DnsPrefix,
    DnsSuffix,
    DhcpPrefix,
}

/// A fatal flaw of the input text; parsing never yields a partial registry.
#[derive(Clone, Copy, Debug, PartialEq, Eq, Structural)]
pub enum ParseError {
    /// A host line whose first token is neither a hardware address nor an
    /// IPv4 address.
    NoMacOrIp { line: usize },
    /// A host line with a hardware address but no IPv4 address after it.
    NoIpAddress { line: usize },
    /// A host line with an address but no name after it.
    NoServerNames { line: usize },
    /// A scalar line with no value token or more than one.
    ScalarArity { key: ScalarKey, line: usize },
    /// A section that was still open at the end of the input.
    UnterminatedSection { section: Section },
    /// A scalar key that never occurred in the input.
    MissingScalar { key: ScalarKey },
}

/// The configuration key a scalar error speaks of.
pub open spec fn spec_key_name(key: ScalarKey) -> Seq<char> {
    match key {
        ScalarKey::Domain => "domain"@,
        ScalarKey::DnsFileName => "dns_file_name"@,
        ScalarKey::ReverseDnsFileName => "reverse_dns_file_name"@,
        ScalarKey::DhcpFileName => "dhcp_file_name"@,
    }
}

/// The human-readable account of a parse error.
pub open spec fn spec_parse_error_message(e: ParseError) -> Seq<char> {
    match e {
        ParseError::NoMacOrIp { line } => {
            "\u{2717} No MAC or IP address on line "@ + spec_decimal(line as int)
        },
        ParseError::NoIpAddress { line } => {
            "\u{2717} No IP address on line "@ + spec_decimal(line as int)
        },
        ParseError::NoServerNames { line } => {
            "\u{2717} No server names on line "@ + spec_decimal(line as int)
        },
        ParseError::ScalarArity { key, line } => {
            "\u{2717} Expected exactly one value for "@ + spec_key_name(key) + " on line "@
                + spec_decimal(line as int)
        },
        ParseError::UnterminatedSection { section } => match section {
            Section::DnsPrefix => "\u{2717} DNS prefix section not terminated"@,
            Section::DnsSuffix => "\u{2717} DNS suffix section not terminated"@,
            Section::DhcpPrefix => "\u{2717} DHCP prefix section not terminated"@,
        },
        ParseError::MissingScalar { key } => match key {
            ScalarKey::Domain => "\u{2717} No domain specified in the configuration (domain)"@,
            ScalarKey::DnsFileName => {
                "\u{2717} No DNS file specified in the configuration (dns_file_name)"@
            },
            ScalarKey::ReverseDnsFileName => {
                "\u{2717} No reverse DNS file specified in the configuration (reverse_dns_file_name)"@
            },
            ScalarKey::DhcpFileName => {
                "\u{2717} No DHCP file specified in the configuration (dhcp_file_name)"@
            },
        },
    }
}

impl ParseError {
    /// Render the error as the line shown to the user.
    pub fn message(&self) -> (r: String)
        ensures
            r@ == spec_parse_error_message(*self),
    {
        match self {
            ParseError::NoMacOrIp { line } => {
                let mut s = String::from_str("\u{2717} No MAC or IP address on line ");
                let ls = usize_to_string(*line);
                s.append(ls.as_str());
                s
            },
            ParseError::NoIpAddress { line } => {
                let mut s = String::from_str("\u{2717} No IP address on line ");
                let ls = usize_to_string(*line);
                s.append(ls.as_str());
                s
            },
            ParseError::NoServerNames { line } => {
                let mut s = String::from_str("\u{2717} No server names on line ");
                let ls = usize_to_string(*line);
                s.append(ls.as_str());
                s
            },
            ParseError::ScalarArity { key, line } => {
                let mut s = String::from_str("\u{2717} Expected exactly one value for ");
                let key_name: &str = match key {
                    ScalarKey::Domain => "domain",
                    ScalarKey::DnsFileName => "dns_file_name",
                    ScalarKey::ReverseDnsFileName => "reverse_dns_file_name",
                    ScalarKey::DhcpFileName => "dhcp_file_name",
                };
                s.append(key_name);
                s.append(" on line ");
                let ls = usize_to_string(*line);
                s.append(ls.as_str());
                s
            },
            ParseError::UnterminatedSection { section } => match section {
                Section::DnsPrefix => {
                    String::from_str("\u{2717} DNS prefix section not terminated")
                },
                Section::DnsSuffix => {
                    String::from_str("\u{2717} DNS suffix section not terminated")
                },
                Section::DhcpPrefix => {
                    String::from_str("\u{2717} DHCP prefix section not terminated")
                },
            },
            ParseError::MissingScalar { key } => match key {
                ScalarKey::Domain => {
                    String::from_str("\u{2717} No domain specified in the configuration (domain)")
                },
                ScalarKey::DnsFileName => {
                    String::from_str(
                        "\u{2717} No DNS file specified in the configuration (dns_file_name)",
                    )
                },
                ScalarKey::ReverseDnsFileName => {
                    String::from_str(
                        "\u{2717} No reverse DNS file specified in the configuration (reverse_dns_file_name)",
                    )
                },
                ScalarKey::DhcpFileName => {
                    String::from_str(
                        "\u{2717} No DHCP file specified in the configuration (dhcp_file_name)",
                    )
                },
            },
        }
    }
}

// ---------------------------------------------------------------------------
// Token shapes
// ---------------------------------------------------------------------------
pub open spec fn spec_is_lower_hex(c: char) -> bool {
    ('0' <= c && c <= '9') || ('a' <= c && c <= 'f')
}

/// Six lowercase hex byte pairs joined by `:`, as in `10:00:00:00:00:aa`.
pub open spec fn spec_is_mac_token(t: Seq<char>) -> bool {
    t.len() == 17 && forall|i: int|
        0 <= i < 17 ==> if i % 3 == 2 {
            t[i] == ':'
        } else {
            spec_is_lower_hex(t[i])
        }
}

pub open spec fn spec_is_digit(c: char) -> bool {
    '0' <= c && c <= '9'
}

/// The value of a decimal numeral.
pub open spec fn spec_numeral_val(t: Seq<char>) -> int
    decreases t.len(),
{
    if t.len() == 0 {
        0
    } else {
        spec_numeral_val(t.drop_last()) * 10 + (t.last() as int - 48)
    }
}

/// A decimal octet `0`..`255`, without leading zeros.
pub open spec fn spec_is_octet(t: Seq<char>) -> bool {
    1 <= t.len() <= 3 && (forall|i: int| 0 <= i < t.len() ==> spec_is_digit(t[i]))
        && spec_numeral_val(t) <= 255 && (t.len() > 1 ==> t[0] != '0')
}

/// A dotted-quad IPv4 address.
pub open spec fn spec_is_ip_token(t: Seq<char>) -> bool {
    let parts = spec_split(t, '.');
    parts.len() == 4 && forall|i: int| 0 <= i < 4 ==> spec_is_octet(parts[i])
}

/// Decide whether `t` has the hardware-address shape.
pub fn is_mac_token(t: &str) -> (r: bool)
    ensures
        r == spec_is_mac_token(t@),
{
    let n: usize = t.unicode_len();
    if n != 17 {
        return false;
    }
    let mut i: usize = 0;
    while i < 17
        invariant
            n == t@.len(),
            n == 17,
            i <= 17,
            forall|k: int|
                0 <= k < i ==> if k % 3 == 2 {
                    t@[k] == ':'
                } else {
                    spec_is_lower_hex(t@[k])
                },
        decreases 17 - i,
    {
        let c = t.get_char(i);
        if i % 3 == 2 {
            if c != ':' {
                return false;
            }
        } else {
            if !(('0' <= c && c <= '9') || ('a' <= c && c <= 'f')) {
                return false;
            }
        }
        i = i + 1;
    }
    true
}

/// Decide whether `t` is a decimal octet.
fn is_octet(t: &str) -> (r: bool)
    ensures
        r == spec_is_octet(t@),
{
    let n: usize = t.unicode_len();
    if n < 1 || n > 3 {
        return false;
    }
    let mut val: u32 = 0;
    let mut i: usize = 0;
    while i < n
        invariant
            n == t@.len(),
            1 <= n <= 3,
            i <= n,
            forall|k: int| 0 <= k < i ==> spec_is_digit(t@[k]),
            val == spec_numeral_val(t@.take(i as int)),
            i == 0 ==> val == 0,
            i == 1 ==> val <= 9,
            i == 2 ==> val <= 99,
            i == 3 ==> val <= 999,
        decreases n - i,
    {
        let c = t.get_char(i);
        if !('0' <= c && c <= '9') {
            return false;
        }
        proof {
            assert(t@.take(i + 1).drop_last() =~= t@.take(i as int));
            assert(t@.take(i + 1).last() == t@[i as int]);
            if i == 1 {
                assert(spec_numeral_val(t@.take(1)) <= 9);
            }
        }
        val = val * 10 + ((c as u32) - 48);
        i = i + 1;
    }
    proof {
        assert(t@.take(n as int) =~= t@);
    }
    if val > 255 {
        return false;
    }
    if n > 1 && t.get_char(0) == '0' {
        return false;
    }
    true
}

/// Decide whether `t` is a dotted-quad IPv4 address.
pub fn is_ip_token(t: &str) -> (r: bool)
    ensures
        r == spec_is_ip_token(t@),
{
    let parts = split_on(t, '.');
    if parts.len() != 4 {
        return false;
    }
    let mut i: usize = 0;
    while i < 4
        invariant
            parts.deep_view() == spec_split(t@, '.'),
            parts@.len() == 4,
            i <= 4,
            forall|k: int| 0 <= k < i ==> spec_is_octet(spec_split(t@, '.')[k]),
        decreases 4 - i,
    {
        let ok = is_octet(parts[i].as_str());
        proof {
            assert(parts.deep_view()[i as int] == parts@[i as int]@);
        }
        if !ok {
            return false;
        }
        i = i + 1;
    }
    true
}

// ---------------------------------------------------------------------------
// The state machine
// ---------------------------------------------------------------------------
/// The parsing mode: host lines, or capturing one of the three sections.
#[derive(Clone, Copy, Debug, PartialEq, Eq, Structural)]
pub enum ParserMode {
    InHostLines,
    InDnsPrefix,
    InDnsSuffix,
    InDhcpPrefix,
}

struct ParseState {
    mode: ParserMode,
    ip_lines: Vec<Line>,
    domain: String,
    domain_set: bool,
    dns_file_name: String,
    dns_file_name_set: bool,
    reverse_dns_file_name: String,
    reverse_dns_file_name_set: bool,
    dhcp_file_name: String,
    dhcp_file_name_set: bool,
    dns_prefix: String,
    dns_suffix: String,
    dhcp_prefix: String,
}

#[verifier::ext_equal]
pub ghost struct ParseStateV {
    pub mode: ParserMode,
    pub ip_lines: Seq<LineV>,
    pub domain: Seq<char>,
    pub domain_set: bool,
    pub dns_file_name: Seq<char>,
    pub dns_file_name_set: bool,
    pub reverse_dns_file_name: Seq<char>,
    pub reverse_dns_file_name_set: bool,
    pub dhcp_file_name: Seq<char>,
    pub dhcp_file_name_set: bool,
    pub dns_prefix: Seq<char>,
    pub dns_suffix: Seq<char>,
    pub dhcp_prefix: Seq<char>,
}

impl View for ParseState {
    type V = ParseStateV;

    closed spec fn view(&self) -> ParseStateV {
        ParseStateV {
            mode: self.mode,
            ip_lines: line_views(self.ip_lines@),
            domain: self.domain@,
            domain_set: self.domain_set,
            dns_file_name: self.dns_file_name@,
            dns_file_name_set: self.dns_file_name_set,
            reverse_dns_file_name: self.reverse_dns_file_name@,
            reverse_dns_file_name_set: self.reverse_dns_file_name_set,
            dhcp_file_name: self.dhcp_file_name@,
            dhcp_file_name_set: self.dhcp_file_name_set,
            dns_prefix: self.dns_prefix@,
            dns_suffix: self.dns_suffix@,
            dhcp_prefix: self.dhcp_prefix@,
        }
    }
}

pub open spec fn spec_init_state() -> ParseStateV {
    ParseStateV {
        mode: ParserMode::InHostLines,
        ip_lines: Seq::empty(),
        domain: Seq::empty(),
        domain_set: false,
        dns_file_name: Seq::empty(),
        dns_file_name_set: false,
        reverse_dns_file_name: Seq::empty(),
        reverse_dns_file_name_set: false,
        dhcp_file_name: Seq::empty(),
        dhcp_file_name_set: false,
        dns_prefix: Seq::empty(),
        dns_suffix: Seq::empty(),
        dhcp_prefix: Seq::empty(),
    }
}

/// The tokens of a line once its inline comment is stripped.
pub open spec fn spec_line_tokens(line: Seq<char>) -> Seq<Seq<char>> {
    spec_tokens(spec_strip_comment(line))
}

/// One scalar line: exactly one value token after the key.
pub open spec fn spec_scalar_step(
    st: ParseStateV,
    toks: Seq<Seq<char>>,
    key: ScalarKey,
    lineno: int,
) -> Result<ParseStateV, ParseError> {
    if toks.len() != 2 {
        Err(ParseError::ScalarArity { key, line: lineno as usize })
    } else {
        Ok(
            match key {
                ScalarKey::Domain => ParseStateV { domain: toks[1], domain_set: true, ..st },
                ScalarKey::DnsFileName => ParseStateV {
                    dns_file_name: toks[1],
                    dns_file_name_set: true,
                    ..st
                },
                ScalarKey::ReverseDnsFileName => ParseStateV {
                    reverse_dns_file_name: toks[1],
                    reverse_dns_file_name_set: true,
                    ..st
                },
                ScalarKey::DhcpFileName => ParseStateV {
                    dhcp_file_name: toks[1],
                    dhcp_file_name_set: true,
                    ..st
                },
            },
        )
    }
}

/// One host line: an optional hardware address, then a mandatory IPv4
/// address, then one or more names.
pub open spec fn spec_host_record_step(
    st: ParseStateV,
    line: Seq<char>,
    toks: Seq<Seq<char>>,
    lineno: int,
) -> Result<ParseStateV, ParseError> {
    let has_mac = spec_is_mac_token(toks[0]);
    let idx: int = if has_mac {
        1
    } else {
        0
    };
    if idx >= toks.len() {
        Err(ParseError::NoIpAddress { line: lineno as usize })
    } else if !spec_is_ip_token(toks[idx]) {
        if has_mac {
            Err(ParseError::NoIpAddress { line: lineno as usize })
        } else {
            Err(ParseError::NoMacOrIp { line: lineno as usize })
        }
    } else if idx + 1 >= toks.len() {
        Err(ParseError::NoServerNames { line: lineno as usize })
    } else {
        Ok(
            ParseStateV {
                ip_lines: st.ip_lines.push(
                    LineV {
                        number: lineno,
                        text: line,
                        mac: if has_mac {
                            Some(toks[0])
                        } else {
                            None
                        },
                        ip: toks[idx],
                        names: toks.skip(idx + 1),
                    },
                ),
                ..st
            },
        )
    }
}

/// The transition taken for one physical line.
pub open spec fn spec_step(st: ParseStateV, line: Seq<char>, lineno: int) -> Result<
    ParseStateV,
    ParseError,
> {
    match st.mode {
        ParserMode::InHostLines => {
            let toks = spec_line_tokens(line);
            if toks.len() == 0 {
                Ok(st)
            } else if toks[0] == "DNS_PREFIX_START"@ {
                Ok(ParseStateV { mode: ParserMode::InDnsPrefix, ..st })
            } else if toks[0] == "DNS_SUFFIX_START"@ {
                Ok(ParseStateV { mode: ParserMode::InDnsSuffix, ..st })
            } else if toks[0] == "DHCP_PREFIX_START"@ {
                Ok(ParseStateV { mode: ParserMode::InDhcpPrefix, ..st })
            } else if toks[0] == "domain"@ {
                spec_scalar_step(st, toks, ScalarKey::Domain, lineno)
            } else if toks[0] == "dns_file_name"@ {
                spec_scalar_step(st, toks, ScalarKey::DnsFileName, lineno)
            } else if toks[0] == "reverse_dns_file_name"@ {
                spec_scalar_step(st, toks, ScalarKey::ReverseDnsFileName, lineno)
            } else if toks[0] == "dhcp_file_name"@ {
                spec_scalar_step(st, toks, ScalarKey::DhcpFileName, lineno)
            } else {
                spec_host_record_step(st, line, toks, lineno)
            }
        },
        ParserMode::InDnsPrefix => {
            if line == "DNS_PREFIX_END"@ {
                Ok(ParseStateV { mode: ParserMode::InHostLines, ..st })
            } else {
                Ok(ParseStateV { dns_prefix: st.dns_prefix + line + "\n"@, ..st })
            }
        },
        ParserMode::InDnsSuffix => {
            if line == "DNS_SUFFIX_END"@ {
                Ok(ParseStateV { mode: ParserMode::InHostLines, ..st })
            } else {
                Ok(ParseStateV { dns_suffix: st.dns_suffix + line + "\n"@, ..st })
            }
        },
        ParserMode::InDhcpPrefix => {
            if line == "DHCP_PREFIX_END"@ {
                Ok(ParseStateV { mode: ParserMode::InHostLines, ..st })
            } else {
                Ok(ParseStateV { dhcp_prefix: st.dhcp_prefix + line + "\n"@, ..st })
            }
        },
    }
}

/// Fold [`spec_step`] over the lines, counting them from `lineno`.
pub open spec fn spec_parse_lines(
    lines: Seq<Seq<char>>,
    lineno: int,
    st: ParseStateV,
) -> Result<ParseStateV, ParseError>
    decreases lines.len(),
{
    if lines.len() == 0 {
        Ok(st)
    } else {
        match spec_step(st, lines[0], lineno) {
            Ok(st2) => spec_parse_lines(lines.drop_first(), lineno + 1, st2),
            Err(e) => Err(e),
        }
    }
}

/// The end-of-input checks: every scalar seen at least once, no section left
/// open.
pub open spec fn spec_finish(st: ParseStateV) -> Result<ParsedInfoV, ParseError> {
    if !st.domain_set {
        Err(ParseError::MissingScalar { key: ScalarKey::Domain })
    } else if !st.dns_file_name_set {
        Err(ParseError::MissingScalar { key: ScalarKey::DnsFileName })
    } else if !st.reverse_dns_file_name_set {
        Err(ParseError::MissingScalar { key: ScalarKey::ReverseDnsFileName })
    } else if !st.dhcp_file_name_set {
        Err(ParseError::MissingScalar { key: ScalarKey::DhcpFileName })
    } else {
        match st.mode {
            ParserMode::InHostLines => Ok(
                ParsedInfoV {
                    ip_lines: st.ip_lines,
                    domain: st.domain,
                    dns_prefix: st.dns_prefix,
                    dns_suffix: st.dns_suffix,
                    dhcp_prefix: st.dhcp_prefix,
                    dns_file_name: st.dns_file_name,
                    reverse_dns_file_name: st.reverse_dns_file_name,
                    dhcp_file_name: st.dhcp_file_name,
                },
            ),
            ParserMode::InDnsPrefix => Err(
                ParseError::UnterminatedSection { section: Section::DnsPrefix },
            ),
            ParserMode::InDnsSuffix => Err(
                ParseError::UnterminatedSection { section: Section::DnsSuffix },
            ),
            ParserMode::InDhcpPrefix => Err(
                ParseError::UnterminatedSection { section: Section::DhcpPrefix },
            ),
        }
    }
}

/// What parsing the whole text means: split into lines, fold the state
/// machine over them from line one, then run the end-of-input checks.
pub open spec fn spec_parse(content: Seq<char>) -> Result<ParsedInfoV, ParseError> {
    match spec_parse_lines(spec_split(content, '\n'), 1, spec_init_state()) {
        Ok(st) => spec_finish(st),
        Err(e) => Err(e),
    }
}

// ---------------------------------------------------------------------------
// The executable parser
// ---------------------------------------------------------------------------
/// Apply the transition of one line to the running state.
fn parse_line(st: &mut ParseState, line: &str, lineno: usize) -> (r: Result<(), ParseError>)
    ensures
        match r {
            Ok(()) => spec_step(old(st)@, line@, lineno as int) == Ok::<ParseStateV, ParseError>(
                final(st)@,
            ),
            Err(e) => spec_step(old(st)@, line@, lineno as int) == Err::<ParseStateV, ParseError>(
                e,
            ),
        },
{
    match st.mode {
        ParserMode::InHostLines => parse_host_mode_line(st, line, lineno),
        ParserMode::InDnsPrefix => {
            if str_eq(line, "DNS_PREFIX_END") {
                st.mode = ParserMode::InHostLines;
                proof {
                    assert(st@ =~= ParseStateV { mode: ParserMode::InHostLines, ..old(st)@ });
                }
            } else {
                st.dns_prefix.append(line);
                st.dns_prefix.append("\n");
                proof {
                    assert(st@ =~= ParseStateV {
                        dns_prefix: old(st)@.dns_prefix + line@ + "\n"@,
                        ..old(st)@
                    });
                }
            }
            Ok(())
        },
        ParserMode::InDnsSuffix => {
            if str_eq(line, "DNS_SUFFIX_END") {
                st.mode = ParserMode::InHostLines;
                proof {
                    assert(st@ =~= ParseStateV { mode: ParserMode::InHostLines, ..old(st)@ });
                }
            } else {
                st.dns_suffix.append(line);
                st.dns_suffix.append("\n");
                proof {
                    assert(st@ =~= ParseStateV {
                        dns_suffix: old(st)@.dns_suffix + line@ + "\n"@,
                        ..old(st)@
                    });
                }
            }
            Ok(())
        },
        ParserMode::InDhcpPrefix => {
            if str_eq(line, "DHCP_PREFIX_END") {
                st.mode = ParserMode::InHostLines;
                proof {
                    assert(st@ =~= ParseStateV { mode: ParserMode::InHostLines, ..old(st)@ });
                }
            } else {
                st.dhcp_prefix.append(line);
                st.dhcp_prefix.append("\n");
                proof {
                    assert(st@ =~= ParseStateV {
                        dhcp_prefix: old(st)@.dhcp_prefix + line@ + "\n"@,
                        ..old(st)@
                    });
                }
            }
            Ok(())
        },
    }
}

/// The transition of one line while in host-line mode.
fn parse_host_mode_line(st: &mut ParseState, line: &str, lineno: usize) -> (r: Result<
    (),
    ParseError,
>)
    requires
        old(st).mode == ParserMode::InHostLines,
    ensures
        match r {
            Ok(()) => spec_step(old(st)@, line@, lineno as int) == Ok::<ParseStateV, ParseError>(
                final(st)@,
            ),
            Err(e) => spec_step(old(st)@, line@, lineno as int) == Err::<ParseStateV, ParseError>(
                e,
            ),
        },
{
    let stripped = strip_comment(line);
    let toks = tokenize(stripped);
    proof {
        assert(toks.deep_view() == spec_line_tokens(line@));
    }
    if toks.len() == 0 {
        return Ok(());
    }
    proof {
        assert(toks.deep_view()[0] == toks@[0]@);
    }
    let first = toks[0].as_str();
    if str_eq(first, "DNS_PREFIX_START") {
        st.mode = ParserMode::InDnsPrefix;
        proof {
            assert(st@ =~= ParseStateV { mode: ParserMode::InDnsPrefix, ..old(st)@ });
        }
        Ok(())
    } else if str_eq(first, "DNS_SUFFIX_START") {
        st.mode = ParserMode::InDnsSuffix;
        proof {
            assert(st@ =~= ParseStateV { mode: ParserMode::InDnsSuffix, ..old(st)@ });
        }
        Ok(())
    } else if str_eq(first, "DHCP_PREFIX_START") {
        st.mode = ParserMode::InDhcpPrefix;
        proof {
            assert(st@ =~= ParseStateV { mode: ParserMode::InDhcpPrefix, ..old(st)@ });
        }
        Ok(())
    } else if str_eq(first, "domain") {
        if toks.len() != 2 {
            return Err(ParseError::ScalarArity { key: ScalarKey::Domain, line: lineno });
        }
        proof {
            assert(toks.deep_view()[1] == toks@[1]@);
        }
        st.domain = toks[1].clone();
        st.domain_set = true;
        proof {
            assert(st@ =~= ParseStateV {
                domain: spec_line_tokens(line@)[1],
                domain_set: true,
                ..old(st)@
            });
        }
        Ok(())
    } else if str_eq(first, "dns_file_name") {
        if toks.len() != 2 {
            return Err(ParseError::ScalarArity { key: ScalarKey::DnsFileName, line: lineno });
        }
        proof {
            assert(toks.deep_view()[1] == toks@[1]@);
        }
        st.dns_file_name = toks[1].clone();
        st.dns_file_name_set = true;
        proof {
            assert(st@ =~= ParseStateV {
                dns_file_name: spec_line_tokens(line@)[1],
                dns_file_name_set: true,
                ..old(st)@
            });
        }
        Ok(())
    } else if str_eq(first, "reverse_dns_file_name") {
        if toks.len() != 2 {
            return Err(
                ParseError::ScalarArity { key: ScalarKey::ReverseDnsFileName, line: lineno },
            );
        }
        proof {
            assert(toks.deep_view()[1] == toks@[1]@);
        }
        st.reverse_dns_file_name = toks[1].clone();
        st.reverse_dns_file_name_set = true;
        proof {
            assert(st@ =~= ParseStateV {
                reverse_dns_file_name: spec_line_tokens(line@)[1],
                reverse_dns_file_name_set: true,
                ..old(st)@
            });
        }
        Ok(())
    } else if str_eq(first, "dhcp_file_name") {
        if toks.len() != 2 {
            return Err(ParseError::ScalarArity { key: ScalarKey::DhcpFileName, line: lineno });
        }
        proof {
            assert(toks.deep_view()[1] == toks@[1]@);
        }
        st.dhcp_file_name = toks[1].clone();
        st.dhcp_file_name_set = true;
        proof {
            assert(st@ =~= ParseStateV {
                dhcp_file_name: spec_line_tokens(line@)[1],
                dhcp_file_name_set: true,
                ..old(st)@
            });
        }
        Ok(())
    } else {
        parse_host_record(st, line, &toks, lineno)
    }
}

/// Turn one host line into a record and append it.
fn parse_host_record(st: &mut ParseState, line: &str, toks: &Vec<String>, lineno: usize) -> (r:
    Result<(), ParseError>)
    requires
        old(st).mode == ParserMode::InHostLines,
        toks.deep_view().len() >= 1,
    ensures
        match r {
            Ok(()) => spec_host_record_step(old(st)@, line@, toks.deep_view(), lineno as int)
                == Ok::<ParseStateV, ParseError>(final(st)@),
            Err(e) => spec_host_record_step(old(st)@, line@, toks.deep_view(), lineno as int)
                == Err::<ParseStateV, ParseError>(e),
        },
{
    proof {
        assert(toks.deep_view()[0] == toks@[0]@);
    }
    let has_mac = is_mac_token(toks[0].as_str());
    let idx: usize = if has_mac {
        1
    } else {
        0
    };
    if idx >= toks.len() {
        return Err(ParseError::NoIpAddress { line: lineno });
    }
    proof {
        assert(toks.deep_view()[idx as int] == toks@[idx as int]@);
    }
    if !is_ip_token(toks[idx].as_str()) {
        if has_mac {
            return Err(ParseError::NoIpAddress { line: lineno });
        } else {
            return Err(ParseError::NoMacOrIp { line: lineno });
        }
    }
    if idx + 1 >= toks.len() {
        return Err(ParseError::NoServerNames { line: lineno });
    }
    let mut names: Vec<String> = Vec::new();
    let mut k: usize = idx + 1;
    while k < toks.len()
        invariant
            idx + 1 <= k <= toks@.len(),
            names.deep_view() == toks.deep_view().subrange(idx + 1, k as int),
        decreases toks@.len() - k,
    {
        let ghost prev = names.deep_view();
        names.push(toks[k].clone());
        proof {
            assert(toks.deep_view()[k as int] == toks@[k as int]@);
            assert(names.deep_view() =~= prev.push(toks.deep_view()[k as int]));
            assert(names.deep_view() =~= toks.deep_view().subrange(idx + 1, k + 1));
        }
        k = k + 1;
    }
    proof {
        assert(names.deep_view() =~= toks.deep_view().skip(idx + 1));
    }
    let mac: Option<String> = if has_mac {
        Some(toks[0].clone())
    } else {
        None
    };
    let rec = Line {
        number: lineno,
        _text: String::from_str(line),
        mac,
        ip: toks[idx].clone(),
        names,
    };
    let ghost recv = rec@;
    let ghost prev_lines = line_views(st.ip_lines@);
    st.ip_lines.push(rec);
    proof {
        assert(line_views(st.ip_lines@) =~= prev_lines.push(recv));
        assert(st@ =~= ParseStateV { ip_lines: prev_lines.push(recv), ..old(st)@ });
        assert(recv =~= LineV {
            number: lineno as int,
            text: line@,
            mac: if spec_is_mac_token(toks.deep_view()[0]) {
                Some(toks.deep_view()[0])
            } else {
                None
            },
            ip: toks.deep_view()[idx as int],
            names: toks.deep_view().skip(idx + 1),
        });
    }
    Ok(())
}

/// The end-of-input checks, and the hand-over of the accumulated registry.
fn finish(st: ParseState) -> (r: Result<ParsedInfo, ParseError>)
    ensures
        match r {
            Ok(p) => spec_finish(st@) == Ok::<ParsedInfoV, ParseError>(p@),
            Err(e) => spec_finish(st@) == Err::<ParsedInfoV, ParseError>(e),
        },
{
    if !st.domain_set {
        return Err(ParseError::MissingScalar { key: ScalarKey::Domain });
    }
    if !st.dns_file_name_set {
        return Err(ParseError::MissingScalar { key: ScalarKey::DnsFileName });
    }
    if !st.reverse_dns_file_name_set {
        return Err(ParseError::MissingScalar { key: ScalarKey::ReverseDnsFileName });
    }
    if !st.dhcp_file_name_set {
        return Err(ParseError::MissingScalar { key: ScalarKey::DhcpFileName });
    }
    match st.mode {
        ParserMode::InHostLines => {},
        ParserMode::InDnsPrefix => {
            return Err(ParseError::UnterminatedSection { section: Section::DnsPrefix });
        },
        ParserMode::InDnsSuffix => {
            return Err(ParseError::UnterminatedSection { section: Section::DnsSuffix });
        },
        ParserMode::InDhcpPrefix => {
            return Err(ParseError::UnterminatedSection { section: Section::DhcpPrefix });
        },
    }
    let p = ParsedInfo {
        ip_lines: st.ip_lines,
        domain: st.domain,
        dns_prefix: st.dns_prefix,
        dns_suffix: st.dns_suffix,
        dhcp_prefix: st.dhcp_prefix,
        dns_file_name: st.dns_file_name,
        reverse_dns_file_name: st.reverse_dns_file_name,
        dhcp_file_name: st.dhcp_file_name,
    };
    Ok(p)
}

/// Parse the whole configuration text into a registry, or report the first
/// fatal flaw of the input.
pub fn parser(content: &str) -> (r: Result<ParsedInfo, ParseError>)
    ensures
        match r {
            Ok(p) => spec_parse(content@) == Ok::<ParsedInfoV, ParseError>(p@),
            Err(e) => spec_parse(content@) == Err::<ParsedInfoV, ParseError>(e),
        },
{
    let lines = split_on(content, '\n');
    let mut st = ParseState {
        mode: ParserMode::InHostLines,
        ip_lines: Vec::new(),
        domain: String::new(),
        domain_set: false,
        dns_file_name: String::new(),
        dns_file_name_set: false,
        reverse_dns_file_name: String::new(),
        reverse_dns_file_name_set: false,
        dhcp_file_name: String::new(),
        dhcp_file_name_set: false,
        dns_prefix: String::new(),
        dns_suffix: String::new(),
        dhcp_prefix: String::new(),
    };
    proof {
        assert(st@ =~= spec_init_state());
        assert(lines.deep_view().skip(0) =~= lines.deep_view());
    }
    let mut i: usize = 0;
    while i < lines.len()
        invariant
            lines.deep_view() == spec_split(content@, '\n'),
            i <= lines@.len(),
            spec_parse_lines(lines.deep_view(), 1, spec_init_state()) == spec_parse_lines(
                lines.deep_view().skip(i as int),
                i + 1,
                st@,
            ),
        decreases lines@.len() - i,
    {
        proof {
            assert(lines.deep_view()[i as int] == lines@[i as int]@);
            assert(lines.deep_view().skip(i as int)[0] == lines.deep_view()[i as int]);
        }
        let res = parse_line(&mut st, lines[i].as_str(), i + 1);
        match res {
            Ok(()) => {},
            Err(e) => {
                return Err(e);
            },
        }
        proof {
            assert(lines.deep_view().skip(i as int).drop_first() =~= lines.deep_view().skip(
                i + 1,
            ));
        }
        i = i + 1;
    }
    proof {
        assert(lines.deep_view().skip(i as int).len() == 0);
    }
    finish(st)
}

// ---------------------------------------------------------------------------
// Well-formedness of parsed registries
// ---------------------------------------------------------------------------
pub open spec fn state_wf(st: ParseStateV) -> bool {
    forall|i: int| 0 <= i < st.ip_lines.len() ==> st.ip_lines[i].names.len() >= 1
}

proof fn lemma_step_wf(st: ParseStateV, line: Seq<char>, lineno: int)
    requires
        state_wf(st),
        spec_step(st, line, lineno) is Ok,
    ensures
        state_wf(spec_step(st, line, lineno)->Ok_0),
{
    let st2 = spec_step(st, line, lineno)->Ok_0;
    assert forall|i: int| 0 <= i < st2.ip_lines.len() implies st2.ip_lines[i].names.len()
        >= 1 by {
        if i < st.ip_lines.len() {
            assert(st.ip_lines[i].names.len() >= 1);
        }
    }
}

proof fn lemma_parse_lines_wf(lines: Seq<Seq<char>>, lineno: int, st: ParseStateV)
    requires
        state_wf(st),
        spec_parse_lines(lines, lineno, st) is Ok,
    ensures
        state_wf(spec_parse_lines(lines, lineno, st)->Ok_0),
    decreases lines.len(),
{
    if lines.len() != 0 {
        let step = spec_step(st, lines[0], lineno);
        lemma_step_wf(st, lines[0], lineno);
        lemma_parse_lines_wf(lines.drop_first(), lineno + 1, step->Ok_0);
    }
}

/// A registry that came out of [`parser`] is well formed: every record has a
/// primary name.
pub proof fn lemma_parse_wf(content: Seq<char>)
    ensures
        spec_parse(content) is Ok ==> registry_wf(spec_parse(content)->Ok_0),
{
    if spec_parse(content) is Ok {
        let st = spec_parse_lines(spec_split(content, '\n'), 1, spec_init_state());
        lemma_parse_lines_wf(spec_split(content, '\n'), 1, spec_init_state());
        assert(spec_parse(content)->Ok_0.ip_lines == st->Ok_0.ip_lines);
    }
}

} // verus!
