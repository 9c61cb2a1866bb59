//! A batch translator for a line-oriented network host registry: it parses a
//! single configuration text into host records, scalar settings and verbatim
//! template blocks, validates registry-wide uniqueness invariants, and
//! renders three artifacts — a forward DNS zone file, a reverse DNS zone
//! file and a DHCP reservation file.  Reading the input and writing the
//! output files is left to the thin driver around this library.

pub mod create_dhcp_config;
pub mod create_dns_config;
pub mod create_reverse_dns_config;
pub mod parser;
pub mod text;
pub mod validation;

use vstd::prelude::*;
use vstd::string::*;

use crate::create_dhcp_config::{
    render_dhcp_config, spec_dhcp_config, spec_dhcp_entry, spec_fixed_address, spec_host_key,
};
use crate::create_dns_config::{render_dns_config, spec_dns_config};
use crate::create_reverse_dns_config::{
    render_reverse_dns_config, spec_addr_field, spec_ptr_target, spec_reverse_dns_config,
    spec_reverse_entry,
};
use crate::parser::{
    LineV, ParseError, ParsedInfoV, lemma_parse_wf, parser, spec_parse, spec_parse_error_message,
};
use crate::text::spec_after_last_dot;
use crate::validation::{ValidationError, ValidationErrorV, spec_message, spec_validate, validate};

verus! {

// ---------------------------------------------------------------------------
// The pipeline: parse, validate, generate
// ---------------------------------------------------------------------------
/// The three rendered artifacts, each beside the file name the input asked
/// to store it under.
#[derive(Debug)]
pub struct GeneratedConfigs {
    pub dns_file_name: String,
    pub dns_config: String,
    pub reverse_dns_file_name: String,
    pub reverse_dns_config: String,
    pub dhcp_file_name: String,
    pub dhcp_config: String,
}

#[verifier::ext_equal]
pub ghost struct GeneratedConfigsV {
    pub dns_file_name: Seq<char>,
    pub dns_config: Seq<char>,
    pub reverse_dns_file_name: Seq<char>,
    pub reverse_dns_config: Seq<char>,
    pub dhcp_file_name: Seq<char>,
    pub dhcp_config: Seq<char>,
}

impl View for GeneratedConfigs {
    type V = GeneratedConfigsV;

    open spec fn view(&self) -> GeneratedConfigsV {
        GeneratedConfigsV {
            dns_file_name: self.dns_file_name@,
            dns_config: self.dns_config@,
            reverse_dns_file_name: self.reverse_dns_file_name@,
            reverse_dns_config: self.reverse_dns_config@,
            dhcp_file_name: self.dhcp_file_name@,
            dhcp_config: self.dhcp_config@,
        }
    }
}

/// What stopped the pipeline: a parse error or a validation error.  The
/// first error wins; validation never runs on a failed parse, and nothing is
/// generated after a failed validation.
#[derive(Debug)]
pub enum ProcessError {
    Parse(ParseError),
    Validation(ValidationError),
}

#[verifier::ext_equal]
pub ghost enum ProcessErrorV {
    Parse(ParseError),
    Validation(ValidationErrorV),
}

impl View for ProcessError {
    type V = ProcessErrorV;

    open spec fn view(&self) -> ProcessErrorV {
        match self {
            ProcessError::Parse(e) => ProcessErrorV::Parse(*e),
            ProcessError::Validation(e) => ProcessErrorV::Validation(e@),
        }
    }
}

/// The human-readable account of a pipeline error.
pub open spec fn spec_process_error_message(e: ProcessErrorV) -> Seq<char> {
    match e {
        ProcessErrorV::Parse(p) => spec_parse_error_message(p),
        ProcessErrorV::Validation(v) => spec_message(v),
    }
}

impl ProcessError {
    /// Render the error as the line shown to the user.
    pub fn message(&self) -> (r: String)
        ensures
            r@ == spec_process_error_message(self@),
    {
        match self {
            ProcessError::Parse(e) => e.message(),
            ProcessError::Validation(e) => e.message(),
        }
    }
}

/// The whole pipeline as a function of the input text: the parsed and
/// validated registry rendered into the three artifacts, or the first error.
pub open spec fn spec_generate(content: Seq<char>) -> Result<GeneratedConfigsV, ProcessErrorV> {
    match spec_parse(content) {
        Err(e) => Err(ProcessErrorV::Parse(e)),
        Ok(p) => match spec_validate(p) {
            Err(v) => Err(ProcessErrorV::Validation(v)),
            Ok(()) => Ok(
                GeneratedConfigsV {
                    dns_file_name: p.dns_file_name,
                    dns_config: spec_dns_config(p),
                    reverse_dns_file_name: p.reverse_dns_file_name,
                    reverse_dns_config: spec_reverse_dns_config(p),
                    dhcp_file_name: p.dhcp_file_name,
                    dhcp_config: spec_dhcp_config(p),
                },
            ),
        },
    }
}

/// Parse the configuration text, validate the registry and render the three
/// output artifacts, or report the first error encountered.
pub fn generate_configs(content: &str) -> (r: Result<GeneratedConfigs, ProcessError>)
    ensures
        match r {
            Ok(c) => spec_generate(content@) == Ok::<GeneratedConfigsV, ProcessErrorV>(c@),
            Err(e) => spec_generate(content@) == Err::<GeneratedConfigsV, ProcessErrorV>(e@),
        },
{
    let parsed = match parser(content) {
        Ok(p) => p,
        Err(e) => {
            return Err(ProcessError::Parse(e));
        },
    };
    match validate(&parsed) {
        Ok(()) => {},
        Err(e) => {
            return Err(ProcessError::Validation(e));
        },
    }
    proof {
        lemma_parse_wf(content@);
    }
    let dns_config = render_dns_config(&parsed);
    let reverse_dns_config = render_reverse_dns_config(&parsed);
    let dhcp_config = render_dhcp_config(&parsed);
    let configs = GeneratedConfigs {
        dns_file_name: parsed.dns_file_name,
        dns_config,
        reverse_dns_file_name: parsed.reverse_dns_file_name,
        reverse_dns_config,
        dhcp_file_name: parsed.dhcp_file_name,
        dhcp_config,
    };
    proof {
        assert(configs@ =~= spec_generate(content@)->Ok_0);
    }
    Ok(configs)
}

// ---------------------------------------------------------------------------
// Laws of the pipeline
// ---------------------------------------------------------------------------
/// Determinism: the pipeline is a function of the input text alone, so two
/// runs on byte-identical input yield identical artifacts (or the identical
/// error).  Together with the contract of [`generate_configs`], whose result
/// always equals [`spec_generate`] of its input, re-running the program on
/// the same input reproduces the same three files.
pub proof fn lemma_pipeline_deterministic(content1: Seq<char>, content2: Seq<char>)
    requires
        content1 == content2,
    ensures
        spec_generate(content1) == spec_generate(content2),
{
}

/// Pass-through of the template blocks: each output file opens with its
/// prefix block byte for byte — the DNS prefix for both zone files, the
/// DHCP prefix for the reservation file — and when a DNS suffix block was
/// given, the forward zone file closes with it byte for byte.
pub proof fn lemma_blocks_pass_through(p: ParsedInfoV)
    ensures
        spec_dns_config(p).subrange(0, p.dns_prefix.len() as int) == p.dns_prefix,
        spec_reverse_dns_config(p).subrange(0, p.dns_prefix.len() as int) == p.dns_prefix,
        spec_dhcp_config(p).subrange(0, p.dhcp_prefix.len() as int) == p.dhcp_prefix,
        p.dns_suffix.len() > 0 ==> spec_dns_config(p).subrange(
            spec_dns_config(p).len() - p.dns_suffix.len(),
            spec_dns_config(p).len() as int,
        ) == p.dns_suffix,
{
    assert(spec_dns_config(p).subrange(0, p.dns_prefix.len() as int) =~= p.dns_prefix);
    assert(spec_reverse_dns_config(p).subrange(0, p.dns_prefix.len() as int) =~= p.dns_prefix);
    assert(spec_dhcp_config(p).subrange(0, p.dhcp_prefix.len() as int) =~= p.dhcp_prefix);
    if p.dns_suffix.len() > 0 {
        assert(spec_dns_config(p).subrange(
            spec_dns_config(p).len() - p.dns_suffix.len(),
            spec_dns_config(p).len() as int,
        ) =~= p.dns_suffix);
    }
}

/// The zone apex sentinel: a record whose primary name is `@` stands for the
/// bare domain — its reverse pointer targets the domain, and its DHCP block
/// is keyed by the domain and reserves the domain as the fixed address.
pub proof fn lemma_apex_maps_to_domain(rec: LineV, domain: Seq<char>)
    requires
        rec.names.len() >= 1,
        rec.names[0] == "@"@,
    ensures
        spec_ptr_target(rec.names[0], domain) == domain,
        spec_host_key(rec.names[0], domain) == domain,
        spec_fixed_address(rec.names[0], domain) == domain,
        spec_reverse_entry(rec, domain) == spec_addr_field(spec_after_last_dot(rec.ip))
            + " IN PTR "@ + domain + "."@ + "\n"@,
        rec.mac is Some ==> spec_dhcp_entry(rec, domain) == "\nhost "@ + domain
            + " {\n  hardware ethernet "@ + rec.mac->0 + ";\n  fixed-address "@ + domain
            + ";\n}\n"@,
{
}

} // verus!
