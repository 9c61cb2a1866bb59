//! The reverse DNS zone generator: the DNS prefix block verbatim (reverse
//! zones share the forward zone's prefix template), then one `PTR` line per
//! host record, keyed by the last octet of its address.  A primary name of
//! `@` stands for the zone apex, so its pointer targets the bare domain.

use vstd::prelude::*;
use vstd::string::*;

use crate::parser::{LineV, ParsedInfo, ParsedInfoV, line_views, registry_wf};
use crate::text::{after_last_dot, append_spaces, spec_after_last_dot, spec_spaces, str_eq};

verus! {

// ---------------------------------------------------------------------------
// The rendered text, as a function of the registry
// ---------------------------------------------------------------------------
/// The reverse address, left-aligned in at least three columns.
pub open spec fn spec_addr_field(addr: Seq<char>) -> Seq<char> {
    addr + spec_spaces(3 - addr.len())
}

/// What the pointer record targets: the bare domain for the `@` apex
/// sentinel, otherwise the primary name under the domain.
pub open spec fn spec_ptr_target(primary: Seq<char>, domain: Seq<char>) -> Seq<char> {
    if primary == "@"@ {
        domain
    } else {
        primary + "."@ + domain
    }
}

/// The `PTR` line of one record.
pub open spec fn spec_reverse_entry(rec: LineV, domain: Seq<char>) -> Seq<char> {
    spec_addr_field(spec_after_last_dot(rec.ip)) + " IN PTR "@ + spec_ptr_target(
        rec.names[0],
        domain,
    ) + "."@ + "\n"@
}

/// The `PTR` lines of all records, in registry order.
pub open spec fn spec_reverse_entries(recs: Seq<LineV>, domain: Seq<char>) -> Seq<char>
    decreases recs.len(),
{
    if recs.len() == 0 {
        Seq::empty()
    } else {
        spec_reverse_entry(recs[0], domain) + spec_reverse_entries(recs.drop_first(), domain)
    }
}

/// The whole reverse zone file.
pub open spec fn spec_reverse_dns_config(p: ParsedInfoV) -> Seq<char> {
    p.dns_prefix + spec_reverse_entries(p.ip_lines, p.domain)
}

// ---------------------------------------------------------------------------
// The executable generator
// ---------------------------------------------------------------------------
/// Render the reverse DNS zone file for a validated registry.
pub fn render_reverse_dns_config(parsed_info: &ParsedInfo) -> (r: String)
    requires
        registry_wf(parsed_info@),
    ensures
        r@ == spec_reverse_dns_config(parsed_info@),
{
    let ghost rv = line_views(parsed_info.ip_lines@);
    let ghost dom = parsed_info@.domain;
    let mut out = String::new();
    out.append(parsed_info.dns_prefix.as_str());
    proof {
        assert(rv.skip(0) =~= rv);
    }
    let mut j: usize = 0;
    while j < parsed_info.ip_lines.len()
        invariant
            registry_wf(parsed_info@),
            rv == line_views(parsed_info.ip_lines@),
            rv == parsed_info@.ip_lines,
            dom == parsed_info@.domain,
            j <= parsed_info.ip_lines@.len(),
            out@ + spec_reverse_entries(rv.skip(j as int), dom) == parsed_info@.dns_prefix
                + spec_reverse_entries(rv, dom),
        decreases parsed_info.ip_lines@.len() - j,
    {
        proof {
            assert(rv[j as int] == parsed_info.ip_lines@[j as int]@);
        }
        let ghost before = out@;
        let rec = &parsed_info.ip_lines[j];
        let addr = after_last_dot(rec.ip.as_str());
        out.append(addr);
        let alen = addr.unicode_len();
        if alen < 3 {
            append_spaces(&mut out, 3 - alen);
        }
        proof {
            if alen >= 3 {
                assert(spec_spaces(3 - addr@.len()) == Seq::<char>::empty());
            }
            assert(out@ =~= before + spec_addr_field(spec_after_last_dot(rv[j as int].ip)));
        }
        out.append(" IN PTR ");
        proof {
            assert(rv[j as int].names[0] == rec.names@[0]@);
        }
        if str_eq(rec.names[0].as_str(), "@") {
            out.append(parsed_info.domain.as_str());
        } else {
            out.append(rec.names[0].as_str());
            out.append(".");
            out.append(parsed_info.domain.as_str());
        }
        out.append(".");
        out.append("\n");
        proof {
            assert(out@ =~= before + spec_reverse_entry(rv[j as int], dom));
            let tail = rv.skip(j as int);
            assert(tail[0] == rv[j as int]);
            assert(tail.drop_first() =~= rv.skip(j + 1));
            assert(out@ + spec_reverse_entries(rv.skip(j + 1), dom) =~= before
                + spec_reverse_entries(tail, dom));
        }
        j = j + 1;
    }
    proof {
        assert(rv.skip(parsed_info.ip_lines@.len() as int).len() == 0);
        assert(out@ =~= spec_reverse_dns_config(parsed_info@));
    }
    out
}

} // verus!
