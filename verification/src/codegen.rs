//! Code generation: one struct and one zero-initializing constructor
//! per tagged record, with exact bit widths baked in as compile-time
//! metadata.
//!
//! The generator renders the resolved records to source text, then runs
//! the text through an external parser and pretty-printer; a source
//! text that fails to parse is a template bug reported as a fatal
//! code-generation error, and no partial output is handed back.

use vstd::prelude::*;

use crate::{VwError, VwErrorV};
use crate::anodizer::{ResolvedField, ResolvedFieldV, ResolvedRecord, ResolvedRecordV};
use crate::text::{dec_string, spec_dec};

verus! {

use vstd::string::StringExecFns;

/// The fixed import header of the generated module.
pub open spec fn spec_uses_head() -> Seq<char> {
    "use bitfield_derive::BitStructSerial;\nuse bitfield_struct::{BitStructSerial, BitfieldError, BitfieldWrap};\n\n"@
}

/// The struct-field line and constructor line of one resolved field.
///
/// A vector field becomes a fixed-width bit container with its width
/// `left - right + 1` baked in; a nested field becomes a field of the
/// named tagged type.  A name that is not a plain identifier cannot be
/// spliced into source text; a bound still unresolved, or resolved
/// bounds admitting no valid machine width, is a fatal error naming
/// the field.
pub open spec fn spec_field_lines(f: ResolvedFieldV, record_name: Seq<char>) -> Result<
    (Seq<char>, Seq<char>),
    VwErrorV,
> {
    if !crate::text::spec_is_ident(f.name) {
        Err(VwErrorV::InvalidIdentifier { name: f.name })
    } else if f.bit_width is None && !crate::text::spec_is_ident(f.subtype_name) {
        Err(VwErrorV::InvalidIdentifier { name: f.subtype_name })
    } else {
        match f.bit_width {
        Some(rr) => match (rr.left, rr.right) {
            (Some(l), Some(r)) => {
                if l < r || l - r >= usize::MAX {
                    Err(VwErrorV::InvalidWidth { record: record_name, field: f.name })
                } else {
                    let w = (l - r + 1) as usize;
                    Ok(
                        (
                            "    pub "@ + f.name + ": BitfieldWrap<"@ + spec_dec(w as nat)
                                + ">,\n"@,
                            "            "@ + f.name + ": BitfieldWrap::new(),\n"@,
                        ),
                    )
                }
            },
            _ => Err(VwErrorV::UnresolvedBound { record: record_name, field: f.name }),
        },
        None => Ok(
            (
                "    pub "@ + f.name + ": "@ + f.subtype_name + ",\n"@,
                "            "@ + f.name + ": "@ + f.subtype_name + "::new(),\n"@,
            ),
        ),
        }
    }
}

/// The concatenated field lines and constructor lines of a record.
pub open spec fn spec_record_lines(fields: Seq<ResolvedFieldV>, record_name: Seq<char>) -> Result<
    (Seq<char>, Seq<char>),
    VwErrorV,
>
    decreases fields.len(),
{
    if fields.len() == 0 {
        Ok((Seq::empty(), Seq::empty()))
    } else {
        match spec_record_lines(fields.drop_last(), record_name) {
            Ok((fl, cl)) => match spec_field_lines(fields.last(), record_name) {
                Ok((f, c)) => Ok((fl + f, cl + c)),
                Err(e) => Err(e),
            },
            Err(e) => Err(e),
        }
    }
}

/// The struct definition and constructor block of one record.
pub open spec fn spec_record_block(rec: ResolvedRecordV) -> Result<Seq<char>, VwErrorV> {
    if !crate::text::spec_is_ident(rec.name) {
        Err(VwErrorV::InvalidIdentifier { name: rec.name })
    } else {
        match spec_record_lines(rec.fields, rec.name) {
        Ok((fl, cl)) => Ok(
            "#[derive(Debug, Clone, BitStructSerial)]\npub struct "@ + rec.name + " {\n"@ + fl
                + "}\n\nimpl "@ + rec.name
                + " {\n    pub fn new() -> Self {\n        "@ + rec.name + " {\n"@ + cl
                + "        }\n    }\n}\n\n"@,
        ),
            Err(e) => Err(e),
        }
    }
}

/// The blocks of all records, in order.
pub open spec fn spec_records_blocks(recs: Seq<ResolvedRecordV>) -> Result<Seq<char>, VwErrorV>
    decreases recs.len(),
{
    if recs.len() == 0 {
        Ok(Seq::empty())
    } else {
        match spec_records_blocks(recs.drop_last()) {
            Ok(blocks) => match spec_record_block(recs.last()) {
                Ok(b) => Ok(blocks + b),
                Err(e) => Err(e),
            },
            Err(e) => Err(e),
        }
    }
}

/// The whole generated source text, before formatting.
pub open spec fn spec_rust_source(recs: Seq<ResolvedRecordV>) -> Result<Seq<char>, VwErrorV> {
    match spec_records_blocks(recs) {
        Ok(blocks) => Ok(spec_uses_head() + blocks),
        Err(e) => Err(e),
    }
}

/// What the external formatter produces for a source text: the
/// formatted text when the source parses as Rust with every item fully
/// classified (no top-level or impl-member verbatim remnant), nothing
/// otherwise.
pub uninterp spec fn pretty_of(s: Seq<char>) -> Option<Seq<char>>;

/// Relies on `syn::parse_file` and `prettyplease::unparse`: parses the
/// generated source, refuses a parse failure and any parse holding a
/// verbatim remnant (an item shape the parser accepts but leaves as
/// raw tokens, on which the pretty-printer gives up), and pretty-prints
/// the rest; all of it a function of the source text alone.
#[verifier::external_body]
fn format_rust_source(src: &str) -> (r: Result<String, String>)
    ensures
        r is Ok <==> pretty_of(src@) is Some,
        r is Ok ==> r->Ok_0@ == pretty_of(src@)->Some_0,
{
    match syn::parse_file(src) {
        Ok(file) => {
            let plain = file.items.iter().all(|i| match i {
                syn::Item::Verbatim(_) => false,
                syn::Item::Impl(im) => im.items.iter().all(|m| !matches!(m, syn::ImplItem::Verbatim(_))),
                _ => true,
            });
            if plain { Ok(prettyplease::unparse(&file)) } else { Err("verbatim item in generated code".to_string()) }
        },
        Err(e) => Err(e.to_string()),
    }
}

/// Render the struct-field line and constructor line of one field.
fn field_lines(f: &ResolvedField, record_name: &String) -> (r: Result<(String, String), VwError>)
    ensures
        match spec_field_lines(f@, record_name@) {
            Ok((fl, cl)) => r is Ok && r->Ok_0.0@ == fl && r->Ok_0.1@ == cl,
            Err(ev) => r is Err && r->Err_0@ == ev,
        },
{
    if !crate::text::str_is_ident(f.name.as_str()) {
        return Err(VwError::InvalidIdentifier { name: f.name.clone() });
    }
    if f.bit_width.is_none() && !crate::text::str_is_ident(f.subtype_name.as_str()) {
        return Err(VwError::InvalidIdentifier { name: f.subtype_name.clone() });
    }
    match &f.bit_width {
        Some(rr) => {
            let (l, r) = match (rr.left, rr.right) {
                (Some(l), Some(r)) => (l, r),
                _ => {
                    return Err(
                        VwError::UnresolvedBound {
                            record: record_name.clone(),
                            field: f.name.clone(),
                        },
                    );
                },
            };
            if l < r || l - r == usize::MAX {
                return Err(
                    VwError::InvalidWidth { record: record_name.clone(), field: f.name.clone() },
                );
            }
            let w = l - r + 1;
            let mut fl = "    pub ".to_owned();
            fl.append(f.name.as_str());
            fl.append(": BitfieldWrap<");
            let ws = dec_string(w);
            fl.append(ws.as_str());
            fl.append(">,\n");
            let mut cl = "            ".to_owned();
            cl.append(f.name.as_str());
            cl.append(": BitfieldWrap::new(),\n");
            Ok((fl, cl))
        },
        None => {
            let mut fl = "    pub ".to_owned();
            fl.append(f.name.as_str());
            fl.append(": ");
            fl.append(f.subtype_name.as_str());
            fl.append(",\n");
            let mut cl = "            ".to_owned();
            cl.append(f.name.as_str());
            cl.append(": ");
            cl.append(f.subtype_name.as_str());
            cl.append("::new(),\n");
            Ok((fl, cl))
        },
    }
}

/// If a field prefix renders cleanly and the next field fails, the
/// whole record fails with that field's error.
proof fn lemma_record_lines_error(
    fields: Seq<ResolvedFieldV>,
    j: int,
    record_name: Seq<char>,
)
    requires
        0 <= j < fields.len(),
        spec_record_lines(fields.subrange(0, j), record_name) is Ok,
        spec_field_lines(fields[j], record_name) is Err,
    ensures
        spec_record_lines(fields, record_name) == Err::<(Seq<char>, Seq<char>), VwErrorV>(
            spec_field_lines(fields[j], record_name)->Err_0,
        ),
    decreases fields.len(),
{
    if j == fields.len() - 1 {
        assert(fields.subrange(0, j) =~= fields.drop_last());
        assert(fields.last() == fields[j]);
    } else {
        assert(fields.drop_last().subrange(0, j) =~= fields.subrange(0, j));
        assert(fields.drop_last()[j] == fields[j]);
        lemma_record_lines_error(fields.drop_last(), j, record_name);
    }
}

/// Render one record's struct definition and constructor block.
#[verifier::loop_isolation(false)]
fn record_block(rec: &ResolvedRecord) -> (r: Result<String, VwError>)
    ensures
        match spec_record_block(rec@) {
            Ok(b) => r is Ok && r->Ok_0@ == b,
            Err(ev) => r is Err && r->Err_0@ == ev,
        },
{
    if !crate::text::str_is_ident(rec.name.as_str()) {
        return Err(VwError::InvalidIdentifier { name: rec.name.clone() });
    }
    let ghost fieldsv = rec@.fields;
    let mut fl = String::new();
    let mut cl = String::new();
    proof {
        assert(fieldsv.subrange(0, 0) =~= Seq::<ResolvedFieldV>::empty());
    }
    let mut j: usize = 0;
    while j < rec.fields.len()
        invariant
            j <= fieldsv.len(),
            spec_record_lines(fieldsv.subrange(0, j as int), rec@.name) == Ok::<_, VwErrorV>(
                (fl@, cl@),
            ),
        decreases fieldsv.len() - j,
    {
        proof {
            assert(fieldsv.subrange(0, j + 1).drop_last() =~= fieldsv.subrange(0, j as int));
            assert(fieldsv.subrange(0, j + 1).last() == fieldsv[j as int]);
            assert(rec.fields@[j as int]@ == fieldsv[j as int]);
        }
        match field_lines(&rec.fields[j], &rec.name) {
            Ok((f, c)) => {
                fl.append(f.as_str());
                cl.append(c.as_str());
            },
            Err(e) => {
                proof {
                    lemma_record_lines_error(fieldsv, j as int, rec@.name);
                }
                return Err(e);
            },
        }
        j = j + 1;
    }
    proof {
        assert(fieldsv.subrange(0, fieldsv.len() as int) =~= fieldsv);
    }
    let mut b = "#[derive(Debug, Clone, BitStructSerial)]\npub struct ".to_owned();
    b.append(rec.name.as_str());
    b.append(" {\n");
    b.append(fl.as_str());
    b.append("}\n\nimpl ");
    b.append(rec.name.as_str());
    b.append(" {\n    pub fn new() -> Self {\n        ");
    b.append(rec.name.as_str());
    b.append(" {\n");
    b.append(cl.as_str());
    b.append("        }\n    }\n}\n\n");
    proof {
        assert(b@ =~= spec_record_block(rec@)->Ok_0);
    }
    Ok(b)
}

/// If a record prefix renders cleanly and the next record fails, the
/// whole rendering fails with that record's error.
proof fn lemma_records_blocks_error(recs: Seq<ResolvedRecordV>, k: int)
    requires
        0 <= k < recs.len(),
        spec_records_blocks(recs.subrange(0, k)) is Ok,
        spec_record_block(recs[k]) is Err,
    ensures
        spec_records_blocks(recs) == Err::<Seq<char>, VwErrorV>(
            spec_record_block(recs[k])->Err_0,
        ),
    decreases recs.len(),
{
    if k == recs.len() - 1 {
        assert(recs.subrange(0, k) =~= recs.drop_last());
        assert(recs.last() == recs[k]);
    } else {
        assert(recs.drop_last().subrange(0, k) =~= recs.subrange(0, k));
        assert(recs.drop_last()[k] == recs[k]);
        lemma_records_blocks_error(recs.drop_last(), k);
    }
}

/// Generate the struct definitions for the resolved records, formatted
/// by the external pretty-printer.
///
/// Fails naming the offender when a record, field or subtype name is
/// not a plain identifier, when a bound is still unresolved or admits
/// no valid width, and with a code-generation error when the rendered
/// text does not parse as Rust.  With every name a plain identifier the
/// rendered text is built from fixed templates over identifiers and
/// digits alone, so nothing the formatter leaves verbatim can reach it.
#[verifier::loop_isolation(false)]
pub fn generate_rust_structs(resolved_recs: &Vec<ResolvedRecord>) -> (r: Result<String, VwError>)
    ensures
        match spec_rust_source(resolved_recs.deep_view()) {
            Err(ev) => r is Err && r->Err_0@ == ev,
            Ok(src) => match pretty_of(src) {
                Some(p) => r is Ok && r->Ok_0@ == p,
                None => r is Err && r->Err_0 is CodeGenParse,
            },
        },
{
    let ghost recsv = resolved_recs.deep_view();
    let mut blocks = String::new();
    proof {
        assert(recsv.subrange(0, 0) =~= Seq::<ResolvedRecordV>::empty());
    }
    let mut k: usize = 0;
    while k < resolved_recs.len()
        invariant
            k <= recsv.len(),
            spec_records_blocks(recsv.subrange(0, k as int)) == Ok::<_, VwErrorV>(blocks@),
        decreases recsv.len() - k,
    {
        proof {
            assert(recsv.subrange(0, k + 1).drop_last() =~= recsv.subrange(0, k as int));
            assert(recsv.subrange(0, k + 1).last() == recsv[k as int]);
            assert(resolved_recs@[k as int]@ == recsv[k as int]);
        }
        match record_block(&resolved_recs[k]) {
            Ok(b) => {
                blocks.append(b.as_str());
            },
            Err(e) => {
                proof {
                    lemma_records_blocks_error(recsv, k as int);
                }
                return Err(e);
            },
        }
        k = k + 1;
    }
    proof {
        assert(recsv.subrange(0, recsv.len() as int) =~= recsv);
    }
    let mut src =
        "use bitfield_derive::BitStructSerial;\nuse bitfield_struct::{BitStructSerial, BitfieldError, BitfieldWrap};\n\n".to_owned();
    src.append(blocks.as_str());
    proof {
        assert(src@ =~= spec_rust_source(recsv)->Ok_0);
    }
    match format_rust_source(src.as_str()) {
        Ok(p) => Ok(p),
        Err(message) => Err(VwError::CodeGenParse { message }),
    }
}

} // verus!
