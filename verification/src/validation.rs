//! Registry-wide validation: hardware addresses (up to ASCII case), IPv4
//! addresses and host names must each be unique across the whole registry,
//! and the four scalar settings must be non-empty.  The scans run in source
//! order and stop at the first conflict, so the reported pair is always the
//! earliest one.

use vstd::prelude::*;
use vstd::string::*;

use crate::parser::{Line, LineV, ParsedInfo, ParsedInfoV, line_views};
use crate::text::{spec_decimal, spec_lower, str_eq, str_eq_ignore_case, usize_to_string};

verus! {

// ---------------------------------------------------------------------------
// The error and its view
// ---------------------------------------------------------------------------
/// A violated registry invariant.  The duplicate variants carry the line
/// number of the later claimant, the line number of the earlier one, and the
/// offending value as written on the later line.
#[derive(Debug, PartialEq)]
pub enum ValidationError {
    DuplicateMacAddress(usize, usize, String),
    DuplicateIpAddress(usize, usize, String),
    DuplicateHostName(usize, usize, String),
    MissingDomain(),
    MissingDNSFileName(),
    MissingReverseDNSFileName(),
    MissingDHCPFileName(),
}

#[verifier::ext_equal]
pub ghost enum ValidationErrorV {
    DuplicateMacAddress(int, int, Seq<char>),
    DuplicateIpAddress(int, int, Seq<char>),
    DuplicateHostName(int, int, Seq<char>),
    MissingDomain(),
    MissingDNSFileName(),
    MissingReverseDNSFileName(),
    MissingDHCPFileName(),
}

impl View for ValidationError {
    type V = ValidationErrorV;

    open spec fn view(&self) -> ValidationErrorV {
        match self {
            ValidationError::DuplicateMacAddress(cur, earlier, mac) => {
                ValidationErrorV::DuplicateMacAddress(*cur as int, *earlier as int, mac@)
            },
            ValidationError::DuplicateIpAddress(cur, earlier, ip) => {
                ValidationErrorV::DuplicateIpAddress(*cur as int, *earlier as int, ip@)
            },
            ValidationError::DuplicateHostName(cur, earlier, name) => {
                ValidationErrorV::DuplicateHostName(*cur as int, *earlier as int, name@)
            },
            ValidationError::MissingDomain() => ValidationErrorV::MissingDomain(),
            ValidationError::MissingDNSFileName() => ValidationErrorV::MissingDNSFileName(),
            ValidationError::MissingReverseDNSFileName() => {
                ValidationErrorV::MissingReverseDNSFileName()
            },
            ValidationError::MissingDHCPFileName() => ValidationErrorV::MissingDHCPFileName(),
        }
    }
}

/// The human-readable account of a validation error.
pub open spec fn spec_message(e: ValidationErrorV) -> Seq<char> {
    match e {
        ValidationErrorV::DuplicateMacAddress(cur, earlier, mac) => {
            "\u{2717} Mac address "@ + mac + " on line "@ + spec_decimal(cur)
                + " is duplicate of line "@ + spec_decimal(earlier)
        },
        ValidationErrorV::DuplicateIpAddress(cur, earlier, ip) => {
            "\u{2717} Ip address "@ + ip + " on line "@ + spec_decimal(cur)
                + " is duplicate of line "@ + spec_decimal(earlier)
        },
        ValidationErrorV::DuplicateHostName(cur, earlier, name) => {
            "\u{2717} Host name "@ + name + " on line "@ + spec_decimal(cur)
                + " is duplicate of line "@ + spec_decimal(earlier)
        },
        ValidationErrorV::MissingDomain() => {
            "\u{2717} No domain specified in the configuration (domain)"@
        },
        ValidationErrorV::MissingDNSFileName() => {
            "\u{2717} No DNS file specified in the configuration (dns_file_name)"@
        },
        ValidationErrorV::MissingReverseDNSFileName() => {
            "\u{2717} No reverse DNS file specified in the configuration (reverse_dns_file_name)"@
        },
        ValidationErrorV::MissingDHCPFileName() => {
            "\u{2717} No DHCP file specified in the configuration (dhcp_file_name)"@
        },
    }
}

impl ValidationError {
    /// Render the error as the line shown to the user.
    pub fn message(&self) -> (r: String)
        ensures
            r@ == spec_message(self@),
    {
        match self {
            ValidationError::DuplicateMacAddress(cur, earlier, mac) => {
                let mut s = String::from_str("\u{2717} Mac address ");
                s.append(mac.as_str());
                s.append(" on line ");
                let cs = usize_to_string(*cur);
                s.append(cs.as_str());
                s.append(" is duplicate of line ");
                let es = usize_to_string(*earlier);
                s.append(es.as_str());
                s
            },
            ValidationError::DuplicateIpAddress(cur, earlier, ip) => {
                let mut s = String::from_str("\u{2717} Ip address ");
                s.append(ip.as_str());
                s.append(" on line ");
                let cs = usize_to_string(*cur);
                s.append(cs.as_str());
                s.append(" is duplicate of line ");
                let es = usize_to_string(*earlier);
                s.append(es.as_str());
                s
            },
            ValidationError::DuplicateHostName(cur, earlier, name) => {
                let mut s = String::from_str("\u{2717} Host name ");
                s.append(name.as_str());
                s.append(" on line ");
                let cs = usize_to_string(*cur);
                s.append(cs.as_str());
                s.append(" is duplicate of line ");
                let es = usize_to_string(*earlier);
                s.append(es.as_str());
                s
            },
            ValidationError::MissingDomain() => {
                String::from_str("\u{2717} No domain specified in the configuration (domain)")
            },
            ValidationError::MissingDNSFileName() => {
                String::from_str(
                    "\u{2717} No DNS file specified in the configuration (dns_file_name)",
                )
            },
            ValidationError::MissingReverseDNSFileName() => {
                String::from_str(
                    "\u{2717} No reverse DNS file specified in the configuration (reverse_dns_file_name)",
                )
            },
            ValidationError::MissingDHCPFileName() => {
                String::from_str(
                    "\u{2717} No DHCP file specified in the configuration (dhcp_file_name)",
                )
            },
        }
    }
}

// ---------------------------------------------------------------------------
// Hardware-address uniqueness
// ---------------------------------------------------------------------------
/// The first record index in `[from, upto)` whose hardware address equals
/// `mac` up to ASCII case.
pub open spec fn spec_find_mac(recs: Seq<LineV>, upto: int, mac: Seq<char>, from: int) -> Option<
    int,
>
    decreases upto - from,
{
    if from < 0 || from >= upto {
        None
    } else if recs[from].mac is Some && spec_lower(recs[from].mac->0) == spec_lower(mac) {
        Some(from)
    } else {
        spec_find_mac(recs, upto, mac, from + 1)
    }
}

/// Scan for the first record from `j` on whose hardware address repeats an
/// earlier one.
pub open spec fn spec_check_unique_mac_from(recs: Seq<LineV>, j: int) -> Result<
    (),
    ValidationErrorV,
>
    decreases recs.len() - j,
{
    if j < 0 || j >= recs.len() {
        Ok(())
    } else {
        match recs[j].mac {
            Some(m) => match spec_find_mac(recs, j, m, 0) {
                Some(i) => Err(
                    ValidationErrorV::DuplicateMacAddress(recs[j].number, recs[i].number, m),
                ),
                None => spec_check_unique_mac_from(recs, j + 1),
            },
            None => spec_check_unique_mac_from(recs, j + 1),
        }
    }
}

pub open spec fn spec_check_unique_mac(p: ParsedInfoV) -> Result<(), ValidationErrorV> {
    spec_check_unique_mac_from(p.ip_lines, 0)
}

/// Report the first record whose hardware address repeats an earlier one,
/// case-insensitively.
pub fn check_unique_mac(parsed_info: &ParsedInfo) -> (r: Result<(), ValidationError>)
    ensures
        match r {
            Ok(()) => spec_check_unique_mac(parsed_info@) == Ok::<(), ValidationErrorV>(()),
            Err(e) => spec_check_unique_mac(parsed_info@) == Err::<(), ValidationErrorV>(e@),
        },
{
    let recs = &parsed_info.ip_lines;
    let ghost rv = line_views(recs@);
    let mut j: usize = 0;
    while j < recs.len()
        invariant
            rv == line_views(recs@),
            rv == parsed_info@.ip_lines,
            j <= recs@.len(),
            spec_check_unique_mac_from(rv, 0) == spec_check_unique_mac_from(rv, j as int),
        decreases recs@.len() - j,
    {
        proof {
            assert(rv[j as int] == recs@[j as int]@);
        }
        match &recs[j].mac {
            Some(mac_j) => {
                let mut i: usize = 0;
                while i < j
                    invariant
                        rv == line_views(recs@),
                        rv == parsed_info@.ip_lines,
                        i <= j < recs@.len(),
                        rv[j as int] == recs@[j as int]@,
                        rv[j as int].mac == Some(mac_j@),
                        spec_check_unique_mac_from(rv, 0) == spec_check_unique_mac_from(
                            rv,
                            j as int,
                        ),
                        spec_find_mac(rv, j as int, mac_j@, 0) == spec_find_mac(
                            rv,
                            j as int,
                            mac_j@,
                            i as int,
                        ),
                    decreases j - i,
                {
                    proof {
                        assert(rv[i as int] == recs@[i as int]@);
                    }
                    let found = match &recs[i].mac {
                        Some(mac_i) => {
                            let eq = str_eq_ignore_case(mac_i.as_str(), mac_j.as_str());
                            proof {
                                assert(rv[i as int].mac == Some(mac_i@));
                            }
                            eq
                        },
                        None => {
                            proof {
                                assert(rv[i as int].mac is None);
                            }
                            false
                        },
                    };
                    if found {
                        proof {
                            assert(spec_find_mac(rv, j as int, mac_j@, i as int) == Some(i as int));
                        }
                        return Err(
                            ValidationError::DuplicateMacAddress(
                                recs[j].number,
                                recs[i].number,
                                mac_j.clone(),
                            ),
                        );
                    }
                    proof {
                        assert(spec_find_mac(rv, j as int, mac_j@, i as int) == spec_find_mac(
                            rv,
                            j as int,
                            mac_j@,
                            i + 1,
                        ));
                    }
                    i = i + 1;
                }
            },
            None => {},
        }
        j = j + 1;
    }
    Ok(())
}

// ---------------------------------------------------------------------------
// Address uniqueness
// ---------------------------------------------------------------------------
/// The first record index in `[from, upto)` with exactly this address.
pub open spec fn spec_find_ip(recs: Seq<LineV>, upto: int, ip: Seq<char>, from: int) -> Option<int>
    decreases upto - from,
{
    if from < 0 || from >= upto {
        None
    } else if recs[from].ip == ip {
        Some(from)
    } else {
        spec_find_ip(recs, upto, ip, from + 1)
    }
}

/// Scan for the first record from `j` on whose address repeats an earlier
/// one.
pub open spec fn spec_check_unique_ip_from(recs: Seq<LineV>, j: int) -> Result<(), ValidationErrorV>
    decreases recs.len() - j,
{
    if j < 0 || j >= recs.len() {
        Ok(())
    } else {
        match spec_find_ip(recs, j, recs[j].ip, 0) {
            Some(i) => Err(
                ValidationErrorV::DuplicateIpAddress(recs[j].number, recs[i].number, recs[j].ip),
            ),
            None => spec_check_unique_ip_from(recs, j + 1),
        }
    }
}

pub open spec fn spec_check_unique_ip(p: ParsedInfoV) -> Result<(), ValidationErrorV> {
    spec_check_unique_ip_from(p.ip_lines, 0)
}

/// Report the first record whose address repeats an earlier one.
pub fn check_unique_ip(parsed_info: &ParsedInfo) -> (r: Result<(), ValidationError>)
    ensures
        match r {
            Ok(()) => spec_check_unique_ip(parsed_info@) == Ok::<(), ValidationErrorV>(()),
            Err(e) => spec_check_unique_ip(parsed_info@) == Err::<(), ValidationErrorV>(e@),
        },
{
    let recs = &parsed_info.ip_lines;
    let ghost rv = line_views(recs@);
    let mut j: usize = 0;
    while j < recs.len()
        invariant
            rv == line_views(recs@),
            rv == parsed_info@.ip_lines,
            j <= recs@.len(),
            spec_check_unique_ip_from(rv, 0) == spec_check_unique_ip_from(rv, j as int),
        decreases recs@.len() - j,
    {
        proof {
            assert(rv[j as int] == recs@[j as int]@);
        }
        let mut i: usize = 0;
        while i < j
            invariant
                rv == line_views(recs@),
                rv == parsed_info@.ip_lines,
                i <= j < recs@.len(),
                rv[j as int] == recs@[j as int]@,
                spec_check_unique_ip_from(rv, 0) == spec_check_unique_ip_from(rv, j as int),
                spec_find_ip(rv, j as int, rv[j as int].ip, 0) == spec_find_ip(
                    rv,
                    j as int,
                    rv[j as int].ip,
                    i as int,
                ),
            decreases j - i,
        {
            proof {
                assert(rv[i as int] == recs@[i as int]@);
            }
            if str_eq(recs[i].ip.as_str(), recs[j].ip.as_str()) {
                proof {
                    assert(spec_find_ip(rv, j as int, rv[j as int].ip, i as int) == Some(i as int));
                }
                return Err(
                    ValidationError::DuplicateIpAddress(
                        recs[j].number,
                        recs[i].number,
                        recs[j].ip.clone(),
                    ),
                );
            }
            proof {
                assert(spec_find_ip(rv, j as int, rv[j as int].ip, i as int) == spec_find_ip(
                    rv,
                    j as int,
                    rv[j as int].ip,
                    i + 1,
                ));
            }
            i = i + 1;
        }
        j = j + 1;
    }
    Ok(())
}

// ---------------------------------------------------------------------------
// Host-name uniqueness
// ---------------------------------------------------------------------------
/// Whether one of the first `upto` names equals `name`.
pub open spec fn spec_names_contain(names: Seq<Seq<char>>, upto: int, name: Seq<char>) -> bool
    decreases upto,
{
    if upto <= 0 {
        false
    } else {
        names[upto - 1] == name || spec_names_contain(names, upto - 1, name)
    }
}

/// The first record in `[from, j]` already claiming `name`: records before
/// `j` count all their names, record `j` only its first `k`.
pub open spec fn spec_find_name(
    recs: Seq<LineV>,
    j: int,
    k: int,
    name: Seq<char>,
    from: int,
) -> Option<int>
    decreases j - from + 1,
{
    if from < 0 || from > j {
        None
    } else {
        let limit = if from < j {
            recs[from].names.len() as int
        } else {
            k
        };
        if spec_names_contain(recs[from].names, limit, name) {
            Some(from)
        } else {
            spec_find_name(recs, j, k, name, from + 1)
        }
    }
}

/// Scan the names of record `j` from position `k` on for one already claimed
/// earlier.
pub open spec fn spec_check_host_record(recs: Seq<LineV>, j: int, k: int) -> Result<
    (),
    ValidationErrorV,
>
    decreases recs[j].names.len() - k,
{
    if j < 0 || j >= recs.len() || k < 0 || k >= recs[j].names.len() {
        Ok(())
    } else {
        match spec_find_name(recs, j, k, recs[j].names[k], 0) {
            Some(i) => Err(
                ValidationErrorV::DuplicateHostName(
                    recs[j].number,
                    recs[i].number,
                    recs[j].names[k],
                ),
            ),
            None => spec_check_host_record(recs, j, k + 1),
        }
    }
}

/// Scan for the first name from record `j` on that repeats an earlier one.
pub open spec fn spec_check_unique_host_from(recs: Seq<LineV>, j: int) -> Result<
    (),
    ValidationErrorV,
>
    decreases recs.len() - j,
{
    if j < 0 || j >= recs.len() {
        Ok(())
    } else {
        if spec_check_host_record(recs, j, 0) is Err {
            spec_check_host_record(recs, j, 0)
        } else {
            spec_check_unique_host_from(recs, j + 1)
        }
    }
}

pub open spec fn spec_check_unique_host(p: ParsedInfoV) -> Result<(), ValidationErrorV> {
    spec_check_unique_host_from(p.ip_lines, 0)
}

/// Whether one of the first `limit` entries of `names` equals `name`.
fn names_contain(names: &Vec<String>, limit: usize, name: &str) -> (r: bool)
    requires
        limit <= names@.len(),
    ensures
        r == spec_names_contain(names.deep_view(), limit as int, name@),
{
    let mut t: usize = 0;
    while t < limit
        invariant
            limit <= names@.len(),
            t <= limit,
            !spec_names_contain(names.deep_view(), t as int, name@),
        decreases limit - t,
    {
        proof {
            assert(names.deep_view()[t as int] == names@[t as int]@);
        }
        if str_eq(names[t].as_str(), name) {
            proof {
                lemma_names_contain_mono(names.deep_view(), (t + 1) as int, limit as int, name@);
            }
            return true;
        }
        t = t + 1;
    }
    false
}

proof fn lemma_names_contain_mono(names: Seq<Seq<char>>, t1: int, t2: int, name: Seq<char>)
    requires
        t1 <= t2,
        spec_names_contain(names, t1, name),
    ensures
        spec_names_contain(names, t2, name),
    decreases t2 - t1,
{
    if t1 < t2 {
        lemma_names_contain_mono(names, t1, t2 - 1, name);
    }
}

/// The first record at or before `j` already claiming `name` (record `j`
/// itself only with its first `k` names).
fn find_name_before(recs: &Vec<Line>, j: usize, k: usize, name: &str) -> (r: Option<usize>)
    requires
        j < recs@.len(),
        k <= recs@[j as int]@.names.len(),
    ensures
        match r {
            Some(i) => i <= j && spec_find_name(line_views(recs@), j as int, k as int, name@, 0)
                == Some(i as int),
            None => spec_find_name(line_views(recs@), j as int, k as int, name@, 0) is None,
        },
{
    let ghost rv = line_views(recs@);
    let n: usize = recs.len();
    let mut from: usize = 0;
    while from <= j
        invariant
            rv == line_views(recs@),
            n == recs@.len(),
            j < n,
            k <= recs@[j as int]@.names.len(),
            from <= j + 1,
            spec_find_name(rv, j as int, k as int, name@, 0) == spec_find_name(
                rv,
                j as int,
                k as int,
                name@,
                from as int,
            ),
        decreases j + 1 - from,
    {
        proof {
            assert(rv[from as int] == recs@[from as int]@);
        }
        let limit: usize = if from < j {
            recs[from].names.len()
        } else {
            k
        };
        let ghost spec_limit: int = if (from as int) < j as int {
            rv[from as int].names.len() as int
        } else {
            k as int
        };
        proof {
            assert(limit as int == spec_limit);
            assert(recs@[from as int].names.deep_view() == rv[from as int].names);
        }
        if names_contain(&recs[from].names, limit, name) {
            proof {
                assert(spec_find_name(rv, j as int, k as int, name@, from as int) == Some(
                    from as int,
                ));
            }
            return Some(from);
        }
        proof {
            assert(spec_find_name(rv, j as int, k as int, name@, from as int) == spec_find_name(
                rv,
                j as int,
                k as int,
                name@,
                from + 1,
            ));
        }
        from = from + 1;
    }
    None
}

/// Report the first host name (primary or alias) that repeats one claimed
/// earlier in the registry.
pub fn check_unique_host(parsed_info: &ParsedInfo) -> (r: Result<(), ValidationError>)
    ensures
        match r {
            Ok(()) => spec_check_unique_host(parsed_info@) == Ok::<(), ValidationErrorV>(()),
            Err(e) => spec_check_unique_host(parsed_info@) == Err::<(), ValidationErrorV>(e@),
        },
{
    let recs = &parsed_info.ip_lines;
    let ghost rv = line_views(recs@);
    let mut j: usize = 0;
    while j < recs.len()
        invariant
            rv == line_views(recs@),
            rv == parsed_info@.ip_lines,
            j <= recs@.len(),
            spec_check_unique_host_from(rv, 0) == spec_check_unique_host_from(rv, j as int),
        decreases recs@.len() - j,
    {
        proof {
            assert(rv[j as int] == recs@[j as int]@);
        }
        let mut k: usize = 0;
        while k < recs[j].names.len()
            invariant
                rv == line_views(recs@),
                rv == parsed_info@.ip_lines,
                j < recs@.len(),
                rv[j as int] == recs@[j as int]@,
                k <= recs@[j as int].names@.len(),
                spec_check_unique_host_from(rv, 0) == spec_check_unique_host_from(rv, j as int),
                spec_check_host_record(rv, j as int, 0) == spec_check_host_record(
                    rv,
                    j as int,
                    k as int,
                ),
            decreases recs@[j as int].names@.len() - k,
        {
            proof {
                assert(rv[j as int].names[k as int] == recs@[j as int].names@[k as int]@);
            }
            match find_name_before(recs, j, k, recs[j].names[k].as_str()) {
                Some(i) => {
                    proof {
                        assert(rv[i as int] == recs@[i as int]@);
                        assert(spec_check_host_record(rv, j as int, k as int) == Err::<
                            (),
                            ValidationErrorV,
                        >(
                            ValidationErrorV::DuplicateHostName(
                                rv[j as int].number,
                                rv[i as int].number,
                                rv[j as int].names[k as int],
                            ),
                        ));
                    }
                    return Err(
                        ValidationError::DuplicateHostName(
                            recs[j].number,
                            recs[i].number,
                            recs[j].names[k].clone(),
                        ),
                    );
                },
                None => {},
            }
            k = k + 1;
        }
        j = j + 1;
    }
    Ok(())
}

// ---------------------------------------------------------------------------
// Required scalar fields
// ---------------------------------------------------------------------------
pub open spec fn spec_check_required_fields(p: ParsedInfoV) -> Result<(), ValidationErrorV> {
    if p.domain.len() == 0 {
        Err(ValidationErrorV::MissingDomain())
    } else if p.dns_file_name.len() == 0 {
        Err(ValidationErrorV::MissingDNSFileName())
    } else if p.reverse_dns_file_name.len() == 0 {
        Err(ValidationErrorV::MissingReverseDNSFileName())
    } else if p.dhcp_file_name.len() == 0 {
        Err(ValidationErrorV::MissingDHCPFileName())
    } else {
        Ok(())
    }
}

/// Reject a registry whose domain or output file names are empty.
pub fn check_required_fields(parsed_info: &ParsedInfo) -> (r: Result<(), ValidationError>)
    ensures
        match r {
            Ok(()) => spec_check_required_fields(parsed_info@) == Ok::<(), ValidationErrorV>(()),
            Err(e) => spec_check_required_fields(parsed_info@) == Err::<(), ValidationErrorV>(e@),
        },
{
    if parsed_info.domain.as_str().is_empty() {
        return Err(ValidationError::MissingDomain());
    }
    if parsed_info.dns_file_name.as_str().is_empty() {
        return Err(ValidationError::MissingDNSFileName());
    }
    if parsed_info.reverse_dns_file_name.as_str().is_empty() {
        return Err(ValidationError::MissingReverseDNSFileName());
    }
    if parsed_info.dhcp_file_name.as_str().is_empty() {
        return Err(ValidationError::MissingDHCPFileName());
    }
    Ok(())
}

// ---------------------------------------------------------------------------
// The whole validation pass
// ---------------------------------------------------------------------------
/// Validation checks the three uniqueness invariants and then the required
/// fields, in that order, and stops at the first violation.
pub open spec fn spec_validate(p: ParsedInfoV) -> Result<(), ValidationErrorV> {
    if spec_check_unique_mac(p) is Err {
        spec_check_unique_mac(p)
    } else if spec_check_unique_ip(p) is Err {
        spec_check_unique_ip(p)
    } else if spec_check_unique_host(p) is Err {
        spec_check_unique_host(p)
    } else if spec_check_required_fields(p) is Err {
        spec_check_required_fields(p)
    } else {
        Ok(())
    }
}

/// Enforce the registry-wide invariants, reporting the first violation.
pub fn validate(parsed_info: &ParsedInfo) -> (r: Result<(), ValidationError>)
    ensures
        match r {
            Ok(()) => spec_validate(parsed_info@) == Ok::<(), ValidationErrorV>(()),
            Err(e) => spec_validate(parsed_info@) == Err::<(), ValidationErrorV>(e@),
        },
{
    match check_unique_mac(parsed_info) {
        Ok(()) => {},
        Err(e) => {
            return Err(e);
        },
    }
    match check_unique_ip(parsed_info) {
        Ok(()) => {},
        Err(e) => {
            return Err(e);
        },
    }
    match check_unique_host(parsed_info) {
        Ok(()) => {},
        Err(e) => {
            return Err(e);
        },
    }
    match check_required_fields(parsed_info) {
        Ok(()) => {},
        Err(e) => {
            return Err(e);
        },
    }
    Ok(())
}

// ---------------------------------------------------------------------------
// The uniqueness law
// ---------------------------------------------------------------------------
proof fn lemma_find_mac_none(recs: Seq<LineV>, upto: int, mac: Seq<char>, from: int)
    requires
        0 <= from,
        spec_find_mac(recs, upto, mac, from) is None,
    ensures
        forall|i: int|
            from <= i < upto ==> !(recs[i].mac is Some && spec_lower(recs[i].mac->0) == spec_lower(
                mac,
            )),
    decreases upto - from,
{
    if 0 <= from && from < upto {
        lemma_find_mac_none(recs, upto, mac, from + 1);
    }
}

proof fn lemma_mac_scan_ok(recs: Seq<LineV>, j: int)
    requires
        0 <= j,
        spec_check_unique_mac_from(recs, j) is Ok,
    ensures
        forall|a: int, b: int|
            0 <= a < b < recs.len() && j <= b && recs[a].mac is Some && recs[b].mac is Some
                ==> spec_lower(recs[a].mac->0) != spec_lower(recs[b].mac->0),
    decreases recs.len() - j,
{
    if j < recs.len() {
        lemma_mac_scan_ok(recs, j + 1);
        if recs[j].mac is Some {
            lemma_find_mac_none(recs, j, recs[j].mac->0, 0);
        }
    }
}

proof fn lemma_find_ip_none(recs: Seq<LineV>, upto: int, ip: Seq<char>, from: int)
    requires
        0 <= from,
        spec_find_ip(recs, upto, ip, from) is None,
    ensures
        forall|i: int| from <= i < upto ==> recs[i].ip != ip,
    decreases upto - from,
{
    if 0 <= from && from < upto {
        lemma_find_ip_none(recs, upto, ip, from + 1);
    }
}

proof fn lemma_ip_scan_ok(recs: Seq<LineV>, j: int)
    requires
        0 <= j,
        spec_check_unique_ip_from(recs, j) is Ok,
    ensures
        forall|a: int, b: int|
            0 <= a < b < recs.len() && j <= b ==> recs[a].ip != recs[b].ip,
    decreases recs.len() - j,
{
    if j < recs.len() {
        lemma_ip_scan_ok(recs, j + 1);
        lemma_find_ip_none(recs, j, recs[j].ip, 0);
    }
}

proof fn lemma_names_contain_false(names: Seq<Seq<char>>, upto: int, name: Seq<char>)
    requires
        !spec_names_contain(names, upto, name),
    ensures
        forall|t: int| 0 <= t < upto ==> names[t] != name,
    decreases upto,
{
    if upto > 0 {
        lemma_names_contain_false(names, upto - 1, name);
    }
}

proof fn lemma_find_name_none(recs: Seq<LineV>, j: int, k: int, name: Seq<char>, from: int)
    requires
        0 <= from,
        spec_find_name(recs, j, k, name, from) is None,
    ensures
        forall|i: int, t: int|
            from <= i < j && 0 <= t < recs[i].names.len() ==> recs[i].names[t] != name,
        forall|t: int| 0 <= t < k && from <= j ==> recs[j].names[t] != name,
    decreases j - from + 1,
{
    if 0 <= from && from <= j {
        let limit = if from < j {
            recs[from].names.len() as int
        } else {
            k
        };
        lemma_names_contain_false(recs[from].names, limit, name);
        lemma_find_name_none(recs, j, k, name, from + 1);
    }
}

proof fn lemma_host_record_ok(recs: Seq<LineV>, j: int, k: int)
    requires
        0 <= j < recs.len(),
        0 <= k,
        spec_check_host_record(recs, j, k) is Ok,
    ensures
        forall|l: int, i: int, t: int|
            k <= l < recs[j].names.len() && 0 <= i < j && 0 <= t < recs[i].names.len()
                ==> recs[i].names[t] != recs[j].names[l],
        forall|l: int, t: int|
            k <= l < recs[j].names.len() && 0 <= t < l ==> recs[j].names[t] != recs[j].names[l],
    decreases recs[j].names.len() - k,
{
    if k < recs[j].names.len() {
        lemma_find_name_none(recs, j, k, recs[j].names[k], 0);
        lemma_host_record_ok(recs, j, k + 1);
    }
}

proof fn lemma_host_scan_ok(recs: Seq<LineV>, j: int)
    requires
        0 <= j,
        spec_check_unique_host_from(recs, j) is Ok,
    ensures
        forall|a: int, t: int, b: int, l: int|
            0 <= a < b < recs.len() && j <= b && 0 <= t < recs[a].names.len() && 0 <= l
                < recs[b].names.len() ==> recs[a].names[t] != recs[b].names[l],
        forall|b: int, t: int, l: int|
            0 <= b < recs.len() && j <= b && 0 <= t < l < recs[b].names.len() ==> recs[b].names[t]
                != recs[b].names[l],
    decreases recs.len() - j,
{
    if j < recs.len() {
        lemma_host_scan_ok(recs, j + 1);
        lemma_host_record_ok(recs, j, 0);
    }
}

/// The uniqueness law: when validation succeeds, no two records share a
/// hardware address (up to ASCII case), no two records share an address, and
/// no host name — primary or alias — occurs at two distinct positions of the
/// registry.
pub proof fn lemma_validate_unique(p: ParsedInfoV)
    requires
        spec_validate(p) is Ok,
    ensures
        forall|a: int, b: int|
            0 <= a < b < p.ip_lines.len() && p.ip_lines[a].mac is Some && p.ip_lines[b].mac is Some
                ==> spec_lower(p.ip_lines[a].mac->0) != spec_lower(p.ip_lines[b].mac->0),
        forall|a: int, b: int|
            0 <= a < b < p.ip_lines.len() ==> p.ip_lines[a].ip != p.ip_lines[b].ip,
        forall|a: int, t: int, b: int, l: int|
            0 <= a < p.ip_lines.len() && 0 <= b < p.ip_lines.len() && 0 <= t
                < p.ip_lines[a].names.len() && 0 <= l < p.ip_lines[b].names.len() && (a != b || t
                != l) ==> p.ip_lines[a].names[t] != p.ip_lines[b].names[l],
{
    let recs = p.ip_lines;
    lemma_mac_scan_ok(recs, 0);
    lemma_ip_scan_ok(recs, 0);
    lemma_host_scan_ok(recs, 0);
    assert forall|a: int, t: int, b: int, l: int|
        0 <= a < recs.len() && 0 <= b < recs.len() && 0 <= t < recs[a].names.len() && 0 <= l
            < recs[b].names.len() && (a != b || t != l) implies recs[a].names[t]
        != recs[b].names[l] by {
        if a < b {
        } else if b < a {
            assert(recs[b].names[l] != recs[a].names[t]);
        } else {
            if t < l {
            } else {
                assert(recs[b].names[l] != recs[a].names[t]);
            }
        }
    }
}

} // verus!
