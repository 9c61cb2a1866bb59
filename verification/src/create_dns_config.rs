//! The forward DNS zone generator: the DNS prefix block verbatim, then one
//! group per host record — an `A` record for the primary name and a `CNAME`
//! record per alias — and finally the DNS suffix block verbatim.  Every name
//! field is padded to one column more than the longest name anywhere in the
//! registry, so the record columns line up across the whole file.

use vstd::prelude::*;
use vstd::string::*;

use crate::parser::{Line, LineV, ParsedInfo, ParsedInfoV, line_views, registry_wf};
use crate::text::{append_spaces, lemma_spaces_len, spec_spaces};

verus! {

// ---------------------------------------------------------------------------
// The rendered text, as a function of the registry
// ---------------------------------------------------------------------------
/// The longest name of any record (zero for an empty registry).
pub open spec fn spec_max_name_len(recs: Seq<LineV>) -> int {
    spec_max_name_len_from(recs, 0)
}

/// The longest name of the records from `j` on.
pub open spec fn spec_max_name_len_from(recs: Seq<LineV>, j: int) -> int
    decreases recs.len() - j,
{
    if j < 0 || j >= recs.len() {
        0
    } else {
        let here = spec_record_max_from(recs[j].names, 0);
        let rest = spec_max_name_len_from(recs, j + 1);
        if here >= rest {
            here
        } else {
            rest
        }
    }
}

/// The longest of the names from `k` on.
pub open spec fn spec_record_max_from(names: Seq<Seq<char>>, k: int) -> int
    decreases names.len() - k,
{
    if k < 0 || k >= names.len() {
        0
    } else {
        let here = names[k].len() as int;
        let rest = spec_record_max_from(names, k + 1);
        if here >= rest {
            here
        } else {
            rest
        }
    }
}

/// A name left-aligned in a field of `longest + 1` columns.
pub open spec fn spec_name_field(name: Seq<char>, longest: int) -> Seq<char> {
    name + spec_spaces(longest + 1 - name.len())
}

/// The `CNAME` lines of a record's aliases, each pointing at the primary
/// name.
pub open spec fn spec_cname_lines(
    aliases: Seq<Seq<char>>,
    primary: Seq<char>,
    longest: int,
) -> Seq<char>
    decreases aliases.len(),
{
    if aliases.len() == 0 {
        Seq::empty()
    } else {
        spec_name_field(aliases[0], longest) + " IN CNAME "@ + primary + "\n"@ + spec_cname_lines(
            aliases.drop_first(),
            primary,
            longest,
        )
    }
}

/// The zone entry group of one record: the `A` line, then the `CNAME` lines
/// of its aliases.
pub open spec fn spec_ip_group(ip: Seq<char>, names: Seq<Seq<char>>, longest: int) -> Seq<char> {
    spec_name_field(names[0], longest) + " IN A     "@ + ip + "\n"@ + spec_cname_lines(
        names.drop_first(),
        names[0],
        longest,
    )
}

/// The zone entry groups of all records, in registry order.
pub open spec fn spec_dns_groups(recs: Seq<LineV>, longest: int) -> Seq<char>
    decreases recs.len(),
{
    if recs.len() == 0 {
        Seq::empty()
    } else {
        spec_ip_group(recs[0].ip, recs[0].names, longest) + spec_dns_groups(
            recs.drop_first(),
            longest,
        )
    }
}

/// The whole forward zone file: prefix block, record groups, then a
/// separating blank line and the suffix block when one was given.
pub open spec fn spec_dns_config(p: ParsedInfoV) -> Seq<char> {
    p.dns_prefix + spec_dns_groups(p.ip_lines, spec_max_name_len(p.ip_lines)) + (
    if p.dns_suffix.len() > 0 {
        "\n"@ + p.dns_suffix
    } else {
        Seq::empty()
    })
}

// ---------------------------------------------------------------------------
// Facts about the maximum
// ---------------------------------------------------------------------------
proof fn lemma_record_max_nonneg(names: Seq<Seq<char>>, k: int)
    ensures
        spec_record_max_from(names, k) >= 0,
    decreases names.len() - k,
{
    if 0 <= k && k < names.len() {
        lemma_record_max_nonneg(names, k + 1);
    }
}

proof fn lemma_max_from_nonneg(recs: Seq<LineV>, j: int)
    ensures
        spec_max_name_len_from(recs, j) >= 0,
    decreases recs.len() - j,
{
    if 0 <= j && j < recs.len() {
        lemma_record_max_nonneg(recs[j].names, 0);
        lemma_max_from_nonneg(recs, j + 1);
    }
}

proof fn lemma_record_max_ge(names: Seq<Seq<char>>, k0: int, k: int)
    requires
        0 <= k0 <= k < names.len(),
    ensures
        spec_record_max_from(names, k0) >= names[k].len(),
    decreases k - k0,
{
    if k0 < k {
        lemma_record_max_ge(names, k0 + 1, k);
    }
}

proof fn lemma_max_from_ge(recs: Seq<LineV>, j0: int, j: int)
    requires
        0 <= j0 <= j < recs.len(),
    ensures
        spec_max_name_len_from(recs, j0) >= spec_record_max_from(recs[j].names, 0),
    decreases j - j0,
{
    if j0 < j {
        lemma_max_from_ge(recs, j0 + 1, j);
    }
}

/// No name of any record is longer than the registry's maximum.
pub proof fn lemma_max_name_len_ge(recs: Seq<LineV>, j: int, k: int)
    requires
        0 <= j < recs.len(),
        0 <= k < recs[j].names.len(),
    ensures
        recs[j].names[k].len() <= spec_max_name_len(recs),
{
    lemma_max_from_ge(recs, 0, j);
    lemma_record_max_ge(recs[j].names, 0, k);
}

/// The column alignment law: with the registry's maximum name length as the
/// column width, every rendered name field — primary or alias, of any record
/// — occupies exactly one column more than the longest name in the registry.
pub proof fn lemma_dns_column_alignment(recs: Seq<LineV>)
    ensures
        forall|j: int, k: int|
            0 <= j < recs.len() && 0 <= k < recs[j].names.len() ==> #[trigger] spec_name_field(
                recs[j].names[k],
                spec_max_name_len(recs),
            ).len() == spec_max_name_len(recs) + 1,
{
    let longest = spec_max_name_len(recs);
    assert forall|j: int, k: int|
        0 <= j < recs.len() && 0 <= k < recs[j].names.len() implies #[trigger] spec_name_field(
        recs[j].names[k],
        longest,
    ).len() == longest + 1 by {
        lemma_max_name_len_ge(recs, j, k);
        lemma_spaces_len(longest + 1 - recs[j].names[k].len());
    }
}

// ---------------------------------------------------------------------------
// The executable generator
// ---------------------------------------------------------------------------
/// The part of the maximum still to be scanned: the names of record `j` from
/// `k` on, and every name of the records after it.
pub open spec fn spec_max_rest(recs: Seq<LineV>, j: int, k: int) -> int {
    let here = spec_record_max_from(recs[j].names, k);
    let rest = spec_max_name_len_from(recs, j + 1);
    if here >= rest {
        here
    } else {
        rest
    }
}

/// The length of the longest name of any record of the registry.
pub fn compute_max_name_lenght(lines: &Vec<Line>) -> (r: usize)
    ensures
        r as int == spec_max_name_len(line_views(lines@)),
{
    let ghost rv = line_views(lines@);
    let mut longest: usize = 0;
    let mut j: usize = 0;
    while j < lines.len()
        invariant
            rv == line_views(lines@),
            j <= lines@.len(),
            spec_max_name_len(rv) == if longest as int >= spec_max_name_len_from(rv, j as int) {
                longest as int
            } else {
                spec_max_name_len_from(rv, j as int)
            },
        decreases lines@.len() - j,
    {
        proof {
            assert(rv[j as int] == lines@[j as int]@);
        }
        let names = &lines[j].names;
        let mut k: usize = 0;
        proof {
            assert(spec_max_rest(rv, j as int, 0) == spec_max_name_len_from(rv, j as int));
        }
        while k < names.len()
            invariant
                rv == line_views(lines@),
                j < lines@.len(),
                rv[j as int] == lines@[j as int]@,
                names@ == lines@[j as int].names@,
                k <= names@.len(),
                spec_max_name_len(rv) == if longest as int >= spec_max_rest(rv, j as int, k as int) {
                    longest as int
                } else {
                    spec_max_rest(rv, j as int, k as int)
                },
            decreases names@.len() - k,
        {
            proof {
                assert(rv[j as int].names[k as int] == names@[k as int]@);
            }
            let nlen = names[k].as_str().unicode_len();
            if nlen > longest {
                longest = nlen;
            }
            k = k + 1;
        }
        proof {
            lemma_max_from_nonneg(rv, j + 1);
            assert(spec_record_max_from(rv[j as int].names, names@.len() as int) == 0);
        }
        j = j + 1;
    }
    proof {
        assert(spec_max_name_len_from(rv, lines@.len() as int) == 0);
    }
    longest
}

/// Append a name padded to `longest + 1` columns.
fn append_name_field(out: &mut String, name: &String, longest: usize)
    requires
        name@.len() <= longest,
    ensures
        final(out)@ == old(out)@ + spec_name_field(name@, longest as int),
{
    out.append(name.as_str());
    let nlen = name.as_str().unicode_len();
    append_spaces(out, longest - nlen);
    out.append(" ");
    proof {
        reveal_strlit(" ");
        assert(" "@ =~= seq![' ']);
        assert(spec_spaces(longest - nlen + 1) == spec_spaces((longest - nlen) as int)
            + seq![' ']);
        assert(out@ =~= old(out)@ + spec_name_field(name@, longest as int));
    }
}

/// Append one record's zone entry group.
fn write_ip_group(out: &mut String, ip: &String, names: &Vec<String>, longest: usize)
    requires
        names@.len() >= 1,
        forall|k: int| 0 <= k < names@.len() ==> names@[k]@.len() <= longest,
    ensures
        final(out)@ == old(out)@ + spec_ip_group(ip@, names.deep_view(), longest as int),
{
    let ghost nv = names.deep_view();
    proof {
        assert(nv[0] == names@[0]@);
    }
    append_name_field(out, &names[0], longest);
    out.append(" IN A     ");
    out.append(ip.as_str());
    out.append("\n");
    proof {
        assert(nv.skip(1) =~= nv.drop_first());
        assert(out@ + spec_cname_lines(nv.skip(1), nv[0], longest as int) =~= old(out)@
            + spec_ip_group(ip@, nv, longest as int));
    }
    let mut k: usize = 1;
    while k < names.len()
        invariant
            nv == names.deep_view(),
            1 <= k <= names@.len(),
            forall|t: int| 0 <= t < names@.len() ==> names@[t]@.len() <= longest,
            out@ + spec_cname_lines(nv.skip(k as int), nv[0], longest as int) == old(out)@
                + spec_ip_group(ip@, nv, longest as int),
        decreases names@.len() - k,
    {
        proof {
            assert(nv[k as int] == names@[k as int]@);
        }
        let ghost before = out@;
        append_name_field(out, &names[k], longest);
        out.append(" IN CNAME ");
        let primary = &names[0];
        proof {
            assert(nv[0] == names@[0]@);
        }
        out.append(primary.as_str());
        out.append("\n");
        proof {
            let tail = nv.skip(k as int);
            assert(tail[0] == nv[k as int]);
            assert(tail.drop_first() =~= nv.skip(k + 1));
            assert(out@ =~= before + spec_name_field(nv[k as int], longest as int)
                + " IN CNAME "@ + nv[0] + "\n"@);
            assert(out@ + spec_cname_lines(nv.skip(k + 1), nv[0], longest as int) =~= before
                + spec_cname_lines(tail, nv[0], longest as int));
        }
        k = k + 1;
    }
    proof {
        assert(nv.skip(names@.len() as int).len() == 0);
        assert(spec_cname_lines(nv.skip(names@.len() as int), nv[0], longest as int)
            == Seq::<char>::empty());
        assert(out@ =~= out@ + Seq::<char>::empty());
    }
}

/// Render the forward DNS zone file for a validated registry.
pub fn render_dns_config(parsed_info: &ParsedInfo) -> (r: String)
    requires
        registry_wf(parsed_info@),
    ensures
        r@ == spec_dns_config(parsed_info@),
{
    let ghost rv = line_views(parsed_info.ip_lines@);
    let mut out = String::new();
    out.append(parsed_info.dns_prefix.as_str());
    let longest = compute_max_name_lenght(&parsed_info.ip_lines);
    let ghost pre = parsed_info@.dns_prefix;
    proof {
        assert(rv.skip(0) =~= rv);
    }
    let mut j: usize = 0;
    while j < parsed_info.ip_lines.len()
        invariant
            registry_wf(parsed_info@),
            rv == line_views(parsed_info.ip_lines@),
            rv == parsed_info@.ip_lines,
            j <= parsed_info.ip_lines@.len(),
            longest as int == spec_max_name_len(rv),
            pre == parsed_info@.dns_prefix,
            out@ + spec_dns_groups(rv.skip(j as int), longest as int) == pre + spec_dns_groups(
                rv,
                longest as int,
            ),
        decreases parsed_info.ip_lines@.len() - j,
    {
        proof {
            assert(rv[j as int] == parsed_info.ip_lines@[j as int]@);
            assert forall|t: int|
                0 <= t < parsed_info.ip_lines@[j as int].names@.len()
                    implies parsed_info.ip_lines@[j as int].names@[t]@.len() <= longest by {
                assert(rv[j as int].names[t] == parsed_info.ip_lines@[j as int].names@[t]@);
                lemma_max_name_len_ge(rv, j as int, t);
            }
        }
        let ghost before = out@;
        let rec = &parsed_info.ip_lines[j];
        write_ip_group(&mut out, &rec.ip, &rec.names, longest);
        proof {
            let tail = rv.skip(j as int);
            assert(tail[0] == rv[j as int]);
            assert(tail.drop_first() =~= rv.skip(j + 1));
            assert(rec.names.deep_view() == rv[j as int].names);
            assert(out@ + spec_dns_groups(rv.skip(j + 1), longest as int) =~= before
                + spec_dns_groups(tail, longest as int));
        }
        j = j + 1;
    }
    proof {
        assert(rv.skip(parsed_info.ip_lines@.len() as int).len() == 0);
        assert(out@ =~= pre + spec_dns_groups(rv, longest as int));
    }
    if !parsed_info.dns_suffix.as_str().is_empty() {
        out.append("\n");
        out.append(parsed_info.dns_suffix.as_str());
    }
    proof {
        assert(out@ =~= spec_dns_config(parsed_info@));
    }
    out
}

} // verus!
