//! The DHCP reservation generator: the DHCP prefix block verbatim, then one
//! blank-line-separated `host` block per record that carries a hardware
//! address; records without one have no DHCP meaning and are skipped.  A
//! primary name of `@` keys the block by the bare domain, which is then also
//! the fixed address.

use vstd::prelude::*;
use vstd::string::*;

use crate::parser::{LineV, ParsedInfo, ParsedInfoV, line_views, registry_wf};
use crate::text::str_eq;

verus! {

// ---------------------------------------------------------------------------
// The rendered text, as a function of the registry
// ---------------------------------------------------------------------------
/// The name a record's `host` block is keyed by.
pub open spec fn spec_host_key(primary: Seq<char>, domain: Seq<char>) -> Seq<char> {
    if primary == "@"@ {
        domain
    } else {
        primary
    }
}

/// The fixed address of a record's reservation.
pub open spec fn spec_fixed_address(primary: Seq<char>, domain: Seq<char>) -> Seq<char> {
    if primary == "@"@ {
        domain
    } else {
        primary + "."@ + domain
    }
}

/// The `host` block of one record; empty when the record has no hardware
/// address.
pub open spec fn spec_dhcp_entry(rec: LineV, domain: Seq<char>) -> Seq<char> {
    match rec.mac {
        None => Seq::empty(),
        Some(m) => {
            "\nhost "@ + spec_host_key(rec.names[0], domain) + " {\n  hardware ethernet "@ + m
                + ";\n  fixed-address "@ + spec_fixed_address(rec.names[0], domain) + ";\n}\n"@
        },
    }
}

/// The `host` blocks of all records, in registry order.
pub open spec fn spec_dhcp_entries(recs: Seq<LineV>, domain: Seq<char>) -> Seq<char>
    decreases recs.len(),
{
    if recs.len() == 0 {
        Seq::empty()
    } else {
        spec_dhcp_entry(recs[0], domain) + spec_dhcp_entries(recs.drop_first(), domain)
    }
}

/// The whole DHCP reservation file.
pub open spec fn spec_dhcp_config(p: ParsedInfoV) -> Seq<char> {
    p.dhcp_prefix + spec_dhcp_entries(p.ip_lines, p.domain)
}

// ---------------------------------------------------------------------------
// The executable generator
// ---------------------------------------------------------------------------
/// Render the DHCP reservation file for a validated registry.
pub fn render_dhcp_config(parsed_info: &ParsedInfo) -> (r: String)
    requires
        registry_wf(parsed_info@),
    ensures
        r@ == spec_dhcp_config(parsed_info@),
{
    let ghost rv = line_views(parsed_info.ip_lines@);
    let ghost dom = parsed_info@.domain;
    let mut out = String::new();
    out.append(parsed_info.dhcp_prefix.as_str());
    proof {
        assert(rv.skip(0) =~= rv);
    }
    let mut j: usize = 0;
    while j < parsed_info.ip_lines.len()
        invariant
            registry_wf(parsed_info@),
            rv == line_views(parsed_info.ip_lines@),
            rv == parsed_info@.ip_lines,
            dom == parsed_info@.domain,
            j <= parsed_info.ip_lines@.len(),
            out@ + spec_dhcp_entries(rv.skip(j as int), dom) == parsed_info@.dhcp_prefix
                + spec_dhcp_entries(rv, dom),
        decreases parsed_info.ip_lines@.len() - j,
    {
        proof {
            assert(rv[j as int] == parsed_info.ip_lines@[j as int]@);
        }
        let ghost before = out@;
        let rec = &parsed_info.ip_lines[j];
        match &rec.mac {
            Some(mac_address) => {
                proof {
                    assert(rv[j as int].mac == Some(mac_address@));
                    assert(rv[j as int].names[0] == rec.names@[0]@);
                }
                out.append("\nhost ");
                let apex = str_eq(rec.names[0].as_str(), "@");
                if apex {
                    out.append(parsed_info.domain.as_str());
                } else {
                    out.append(rec.names[0].as_str());
                }
                out.append(" {\n  hardware ethernet ");
                out.append(mac_address.as_str());
                out.append(";\n  fixed-address ");
                if apex {
                    out.append(parsed_info.domain.as_str());
                } else {
                    out.append(rec.names[0].as_str());
                    out.append(".");
                    out.append(parsed_info.domain.as_str());
                }
                out.append(";\n}\n");
                proof {
                    assert(out@ =~= before + spec_dhcp_entry(rv[j as int], dom));
                }
            },
            None => {
                proof {
                    assert(rv[j as int].mac is None);
                    assert(spec_dhcp_entry(rv[j as int], dom) == Seq::<char>::empty());
                    assert(out@ =~= before + spec_dhcp_entry(rv[j as int], dom));
                }
            },
        }
        proof {
            let tail = rv.skip(j as int);
            assert(tail[0] == rv[j as int]);
            assert(tail.drop_first() =~= rv.skip(j + 1));
            assert(out@ + spec_dhcp_entries(rv.skip(j + 1), dom) =~= before + spec_dhcp_entries(
                tail,
                dom,
            ));
        }
        j = j + 1;
    }
    proof {
        assert(rv.skip(parsed_info.ip_lines@.len() as int).len() == 0);
        assert(out@ =~= spec_dhcp_config(parsed_info@));
    }
    out
}

} // verus!
