//! The text of a variant-call file assembled from the fileset's parts.

use vstd::prelude::*;

use crate::genotype::GenotypeCall;

verus! {

/// Each field followed by a tab.
pub open spec fn tabbed_fields(fs: Seq<Seq<char>>) -> Seq<char>
    decreases fs.len(),
{
    if fs.len() == 0 {
        Seq::empty()
    } else {
        tabbed_fields(fs.drop_last()) + fs.last() + "\t"@
    }
}

/// Each call preceded by a tab.
pub open spec fn calls_text(cs: Seq<GenotypeCall>) -> Seq<char>
    decreases cs.len(),
{
    if cs.len() == 0 {
        Seq::empty()
    } else {
        calls_text(cs.drop_last()) + "\t"@ + cs.last().spec_text()
    }
}

/// The fields joined by tabs.
pub open spec fn joined_tab(fs: Seq<Seq<char>>) -> Seq<char>
    decreases fs.len(),
{
    if fs.len() == 0 {
        Seq::empty()
    } else if fs.len() == 1 {
        fs[0]
    } else {
        joined_tab(fs.drop_last()) + "\t"@ + fs.last()
    }
}

/// One data line: the variant's values, the genotype format tag, the calls.
pub open spec fn vcf_row(fields: Seq<Seq<char>>, calls: Seq<GenotypeCall>) -> Seq<char> {
    tabbed_fields(fields) + "GT"@ + calls_text(calls) + "\n"@
}

/// The data lines of `rows`, the calls of row `i` being `calls[i]`.
pub open spec fn vcf_body(rows: Seq<Seq<Seq<char>>>, calls: Seq<Seq<GenotypeCall>>) -> Seq<char>
    decreases rows.len(),
{
    if rows.len() == 0 {
        Seq::empty()
    } else {
        vcf_body(rows.drop_last(), calls.drop_last()) + vcf_row(rows.last(), calls.last())
    }
}

/// The header of the file: the format and source lines, the variant table's
/// comment block, its column header with the `FORMAT` column and one column
/// for each sample.
pub open spec fn vcf_head(comments: Seq<char>, header: Seq<char>, ids: Seq<Seq<char>>) -> Seq<char> {
    "##fileformat=VCFv4.2\n"@ + "##source=pgen-rs\n"@ + comments + header + "\tFORMAT\t"@
        + joined_tab(ids) + "\n"@
}

/// Appends the header of the file to `out`.
pub fn write_head(out: &mut String, comments: &String, header: &String, ids: &Vec<String>)
    ensures
        final(out)@ == old(out)@ + vcf_head(comments@, header@, ids.deep_view()),
{
    out.append("##fileformat=VCFv4.2\n");
    out.append("##source=pgen-rs\n");
    out.append(comments.as_str());
    out.append(header.as_str());
    out.append("\tFORMAT\t");
    write_joined(out, ids);
    out.append("\n");
    assert(out@ =~= old(out)@ + vcf_head(comments@, header@, ids.deep_view()));
}

/// Appends the fields joined by tabs to `out`.
pub fn write_joined(out: &mut String, fields: &Vec<String>)
    ensures
        final(out)@ == old(out)@ + joined_tab(fields.deep_view()),
{
    let ghost start = out@;
    let mut k: usize = 0;
    while k < fields.len()
        invariant
            k <= fields@.len(),
            out@ == start + joined_tab(fields.deep_view().take(k as int)),
        decreases fields.len() - k,
    {
        if k > 0 {
            out.append("\t");
        }
        out.append(fields[k].as_str());
        proof {
            let t = fields.deep_view().take(k + 1);
            assert(t.drop_last() =~= fields.deep_view().take(k as int));
            if k == 0 {
                assert(fields.deep_view().take(0) =~= Seq::<Seq<char>>::empty());
            }
            assert(out@ =~= start + joined_tab(t));
        }
        k = k + 1;
    }
    assert(fields.deep_view().take(k as int) =~= fields.deep_view());
}

/// Appends one data line to `out`.
pub fn write_row(out: &mut String, fields: &Vec<String>, calls: &Vec<GenotypeCall>)
    ensures
        final(out)@ == old(out)@ + vcf_row(fields.deep_view(), calls@),
{
    let ghost start = out@;
    let mut k: usize = 0;
    while k < fields.len()
        invariant
            k <= fields@.len(),
            out@ == start + tabbed_fields(fields.deep_view().take(k as int)),
        decreases fields.len() - k,
    {
        out.append(fields[k].as_str());
        out.append("\t");
        proof {
            let t = fields.deep_view().take(k + 1);
            assert(t.drop_last() =~= fields.deep_view().take(k as int));
            assert(out@ =~= start + tabbed_fields(t));
        }
        k = k + 1;
    }
    assert(fields.deep_view().take(k as int) =~= fields.deep_view());
    out.append("GT");
    let ghost mid = out@;
    let mut j: usize = 0;
    while j < calls.len()
        invariant
            j <= calls@.len(),
            out@ == mid + calls_text(calls@.take(j as int)),
        decreases calls.len() - j,
    {
        out.append("\t");
        out.append(calls[j].as_str());
        proof {
            let t = calls@.take(j + 1);
            assert(t.drop_last() =~= calls@.take(j as int));
            assert(out@ =~= mid + calls_text(t));
        }
        j = j + 1;
    }
    assert(calls@.take(j as int) =~= calls@);
    out.append("\n");
    assert(out@ =~= old(out)@ + vcf_row(fields.deep_view(), calls@));
}

} // verus!
