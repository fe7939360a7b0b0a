//! A fileset triple: the genotype container and its variant and sample
//! tables, all named from one path prefix.

use vstd::prelude::*;

use crate::bytes::{le_u32, read_le_u32};
use crate::error::{FormatError, IoFault, PgenError};
use crate::genotype::{
    decode_record, lemma_code_in_range, lemma_code_mapping_total, record_size, sample_code,
    GenotypeCall,
};
use crate::cli::QueryType;
use crate::filter_parser::{info_query, FilterParser};
use crate::prompt::{
    SAMPLE_PROMPT_HEAD, SAMPLE_PROMPT_MIDDLE, SAMPLE_PROMPT_TAIL, VARIANT_PROMPT_HEAD,
    VARIANT_PROMPT_MIDDLE, VARIANT_PROMPT_TAIL,
};
use crate::pvar_parser::{meta_idnames_from, PvarParser};
use crate::query::{
    filter_metadata, kept_rows, kept_view, opt_view, query_lines, query_output, too_long,
};
use crate::table::{
    comment_block, header_block, header_line, header_start, read_pvar_header, tsv_table,
    MetadataTable,
};
use crate::text::{trim, trimmed_white};
use crate::vcf::{joined_tab, vcf_body, vcf_head, write_head, write_joined, write_row};
use crate::pgen::{
    block_count, body_size, check_preamble, general_fault, length_bytes_of, preamble_fault,
    type_bits_of, Pgen, PREAMBLE_SIZE, SIMPLE_FLAGS, SIMPLE_MODE,
};

verus! {

/// Name of the sample table's identity column.
pub open spec fn iid_column() -> Seq<char> {
    seq!['I', 'I', 'D']
}

/// The first index at or after `from` where `cols` holds `name`.
pub open spec fn column_index_from(cols: Seq<Seq<char>>, name: Seq<char>, from: int) -> Option<int>
    decreases cols.len() - from,
{
    if from < 0 || from >= cols.len() {
        None
    } else if cols[from] == name {
        Some(from)
    } else {
        column_index_from(cols, name, from + 1)
    }
}

/// Finds the first column named `name`.
pub fn find_column(cols: &Vec<String>, name: &String) -> (r: Option<usize>)
    ensures
        r matches Some(i) ==> column_index_from(cols.deep_view(), name@, 0) == Some(i as int),
        r is None ==> column_index_from(cols.deep_view(), name@, 0) is None,
{
    let mut i: usize = 0;
    while i < cols.len()
        invariant
            i <= cols@.len(),
            column_index_from(cols.deep_view(), name@, i as int) == column_index_from(
                cols.deep_view(),
                name@,
                0,
            ),
        decreases cols.len() - i,
    {
        if cols[i] == *name {
            return Some(i);
        }
        i = i + 1;
    }
    None
}

pub proof fn lemma_column_index_bounds(cols: Seq<Seq<char>>, name: Seq<char>, from: int)
    requires
        0 <= from,
    ensures
        column_index_from(cols, name, from) matches Some(i) ==> from <= i < cols.len(),
    decreases cols.len() - from,
{
    if from < cols.len() && cols[from] != name {
        lemma_column_index_bounds(cols, name, from + 1);
    }
}

/// The indices of kept records, in order.
pub open spec fn kept_indices(ks: Seq<(int, Seq<Seq<char>>)>) -> Seq<usize> {
    ks.map_values(|p: (int, Seq<Seq<char>>)| p.0 as usize)
}

/// The values of kept records, in order.
pub open spec fn kept_records(ks: Seq<(int, Seq<Seq<char>>)>) -> Seq<Seq<Seq<char>>> {
    ks.map_values(|p: (int, Seq<Seq<char>>)| p.1)
}

/// Column `c` of each kept record, in order.
pub open spec fn kept_column(ks: Seq<(int, Seq<Seq<char>>)>, c: int) -> Seq<Seq<char>> {
    ks.map_values(|p: (int, Seq<Seq<char>>)| p.1[c])
}

/// The first fault of the container bytes `b`, in the order in which they
/// are read.
pub open spec fn container_fault(b: Seq<u8>) -> Option<PgenError> {
    if preamble_fault(b, false) is Some {
        preamble_fault(b, false)
    } else if b[2] == SIMPLE_MODE {
        if b[11] != SIMPLE_FLAGS {
            Some(PgenError::Format(FormatError::UnsupportedFlags))
        } else {
            None
        }
    } else {
        general_fault(b)
    }
}

/// Where the variant records of a valid container `b` begin.
pub open spec fn records_offset_of(b: Seq<u8>) -> int {
    if b[2] == SIMPLE_MODE {
        PREAMBLE_SIZE as int
    } else {
        let nv = le_u32(b, 3);
        12 + 8 * block_count(nv) + body_size(nv, type_bits_of(b[11]), length_bytes_of(b[11]))
    }
}

/// An opened fileset: its path prefix and the geometry of its genotype
/// matrix, fixed when the container header is read.
pub struct Pfile {
    pub pfile_prefix: String,
    pub num_variants: u32,
    pub num_samples: u32,
    pub storage_mode: u8,
    pub variant_records_offset: u64,
}

impl Pfile {
    /// The record of variant `v` in the fixed-width layout.
    pub open spec fn record_of(&self, data: Seq<u8>, v: int) -> Seq<u8> {
        let rs = record_size(self.num_samples as int);
        data.subrange(PREAMBLE_SIZE + v * rs, PREAMBLE_SIZE + (v + 1) * rs)
    }

    /// The call of sample `s` in variant `v`.
    pub open spec fn call_at(&self, data: Seq<u8>, v: int, s: int) -> GenotypeCall {
        GenotypeCall::spec_from_code(sample_code(self.record_of(data, v), s))
    }

    /// Why decoding `variants` by `samples` out of the container bytes `data`
    /// fails, if it does: a layout that is not fixed-width, then an index
    /// outside the matrix, then a record past the end of the data.
    pub open spec fn decode_fault(&self, data: Seq<u8>, variants: Seq<usize>, samples: Seq<usize>) -> Option<PgenError> {
        if self.storage_mode != SIMPLE_MODE {
            Some(PgenError::Format(FormatError::UnsupportedDecode))
        } else if (exists|j: int| 0 <= j < samples.len() && samples[j] >= self.num_samples)
            || (exists|i: int| 0 <= i < variants.len() && variants[i] >= self.num_variants) {
            Some(PgenError::Io(IoFault::IndexOutOfRange))
        } else if exists|i: int|
            0 <= i < variants.len() && PREAMBLE_SIZE + (variants[i] + 1) * record_size(
                self.num_samples as int,
            ) > data.len() {
            Some(PgenError::Io(IoFault::UnexpectedEof))
        } else {
            None
        }
    }

    /// The calls of `samples`, in their order, for each of `variants`, in
    /// their order.
    pub open spec fn decoded(&self, data: Seq<u8>, variants: Seq<usize>, samples: Seq<usize>, calls: Seq<Vec<GenotypeCall>>) -> bool {
        &&& calls.len() == variants.len()
        &&& forall|i: int|
            0 <= i < variants.len() ==> (#[trigger] calls[i])@.len() == samples.len()
        &&& forall|i: int, j: int|
            0 <= i < variants.len() && 0 <= j < samples.len() ==> #[trigger] calls[i][j]
                == self.call_at(data, variants[i] as int, samples[j] as int)
    }

    /// The calls of `samples` for each of `variants`.
    pub open spec fn call_grid(&self, data: Seq<u8>, variants: Seq<usize>, samples: Seq<usize>) -> Seq<Seq<GenotypeCall>> {
        Seq::new(
            variants.len(),
            |i: int| Seq::new(samples.len(), |j: int| self.call_at(data, variants[i] as int, samples[j] as int)),
        )
    }

    /// The variant-call text for the variant table `pvar`, the sample table
    /// `psam` and the container bytes `data`, keeping the variants that pass
    /// `var_query` and the samples that pass `sam_query`; `None` where any
    /// step fails.
    pub open spec fn vcf_output(
        &self,
        pvar: Seq<char>,
        psam: Seq<char>,
        data: Seq<u8>,
        sam_query: Option<Seq<char>>,
        var_query: Option<Seq<char>>,
    ) -> Option<Seq<char>> {
        match (header_block(pvar), header_start(pvar), header_start(psam)) {
            (Ok(sv), Ok(hv), Ok(hs)) => match (
                tsv_table(pvar.subrange(hv, pvar.len() as int)),
                tsv_table(psam.subrange(hs, psam.len() as int)),
            ) {
                (Some((vc, vr)), Some((sc, sr))) => match column_index_from(sc, iid_column(), 0) {
                    Some(iid) => if too_long(var_query) || too_long(sam_query) {
                        None
                    } else {
                        match (
                            kept_rows(vc, vr, var_query, vr.len() as int),
                            kept_rows(sc, sr, sam_query, sr.len() as int),
                        ) {
                            (Some(kv), Some(ks)) => {
                                let vs = kept_indices(kv);
                                let ss = kept_indices(ks);
                                if self.decode_fault(data, vs, ss) is Some {
                                    None
                                } else {
                                    Some(
                                        vcf_head(
                                            comment_block(pvar, sv),
                                            trimmed_white(header_line(pvar, sv)),
                                            kept_column(ks, iid),
                                        ) + vcf_body(
                                            kept_records(kv),
                                            self.call_grid(data, vs, ss),
                                        ),
                                    )
                                }
                            },
                            _ => None,
                        }
                    },
                    None => None,
                },
                _ => None,
            },
            _ => None,
        }
    }

    /// Whether `e` is the failure of the first step of assembling the
    /// variant-call text that fails: reading the variant table's `#` block,
    /// reading and parsing the sample table, finding its identity column,
    /// reading and parsing the variant table, filtering the variants (a filter
    /// that is too long fails before any record), filtering the samples,
    /// decoding.
    pub open spec fn vcf_error_fits(
        &self,
        pvar: Seq<char>,
        psam: Seq<char>,
        data: Seq<u8>,
        sam_query: Option<Seq<char>>,
        var_query: Option<Seq<char>>,
        e: PgenError,
    ) -> bool {
        match header_block(pvar) {
            Err(f) => e == PgenError::Io(f),
            Ok(_) => match header_start(psam) {
                Err(f) => e == PgenError::Io(f),
                Ok(hs) => match tsv_table(psam.subrange(hs, psam.len() as int)) {
                    None => e is Table,
                    Some((sc, sr)) => match column_index_from(sc, iid_column(), 0) {
                        None => e is Schema,
                        Some(_) => match header_start(pvar) {
                            Err(f) => e == PgenError::Io(f),
                            Ok(hv) => match tsv_table(pvar.subrange(hv, pvar.len() as int)) {
                                None => e is Table,
                                Some((vc, vr)) => if too_long(var_query) {
                                    e is ExpressionTooLong
                                } else {
                                    match kept_rows(vc, vr, var_query, vr.len() as int) {
                                        None => e is Query,
                                        Some(kv) => if too_long(sam_query) {
                                            e is ExpressionTooLong
                                        } else {
                                            match kept_rows(sc, sr, sam_query, sr.len() as int) {
                                                None => e is Query,
                                                Some(ks) => self.decode_fault(
                                                    data,
                                                    kept_indices(kv),
                                                    kept_indices(ks),
                                                ) == Some(e),
                                            }
                                        },
                                    }
                                },
                            },
                        },
                    },
                },
            },
        }
    }

    /// Assembles the variant-call text of the fileset from the variant table
    /// text `pvar_text`, the sample table text `psam_text` and the container
    /// bytes `pgen_data`: the header lines (the variant table's comment block
    /// as it stands, its column header line trimmed of white space), then one
    /// line for each variant that passes `var_query`, with the calls of the
    /// samples that pass `sam_query`. Built-in functions of the expression
    /// language are not available to the filters, and a filter longer than
    /// `MAX_EXPR_LEN` characters is refused. Genotypes are read in runs of up
    /// to `batch_size` records.
    pub fn output_vcf(
        &self,
        pvar_text: &str,
        psam_text: &str,
        pgen_data: &[u8],
        sam_query: Option<&str>,
        var_query: Option<&str>,
        batch_size: usize,
    ) -> (r: Result<String, PgenError>)
        requires
            batch_size >= 1,
        ensures
            r is Ok <==> self.vcf_output(pvar_text@, psam_text@, pgen_data@, opt_view(sam_query), opt_view(var_query)) is Some,
            r matches Ok(out) ==> Some(out@) == self.vcf_output(
                pvar_text@,
                psam_text@,
                pgen_data@,
                opt_view(sam_query),
                opt_view(var_query),
            ),
            r matches Err(e) ==> self.vcf_error_fits(
                pvar_text@,
                psam_text@,
                pgen_data@,
                opt_view(sam_query),
                opt_view(var_query),
                e,
            ),
            r matches Err(PgenError::Schema { column, file }) ==> column@ == iid_column() && file@
                == self.pfile_prefix@ + ".psam"@,
    {
        let (comments, header_raw) = match read_pvar_header(pvar_text) {
            Ok(p) => p,
            Err(e) => {
                return Err(PgenError::Io(e));
            },
        };
        let header = trim(header_raw.as_str());
        let psam = match MetadataTable::from_text(psam_text) {
            Ok(t) => t,
            Err(e) => {
                return Err(e);
            },
        };
        let iid_name = String::from_str("IID");
        proof {
            reveal_strlit("IID");
            assert(iid_name@ =~= iid_column());
        }
        let iid = match find_column(&psam.columns, &iid_name) {
            Some(i) => i,
            None => {
                return Err(PgenError::Schema { column: iid_name, file: self.psam_path() });
            },
        };
        proof {
            lemma_column_index_bounds(psam.column_names(), iid_column(), 0);
        }
        let pvar = match MetadataTable::from_text(pvar_text) {
            Ok(t) => t,
            Err(e) => {
                return Err(e);
            },
        };
        let var_kept = match filter_metadata(&pvar, var_query) {
            Ok(k) => k,
            Err(e) => {
                return Err(e);
            },
        };
        let sam_kept = match filter_metadata(&psam, sam_query) {
            Ok(k) => k,
            Err(e) => {
                return Err(e);
            },
        };
        let ghost kv = kept_view(var_kept@);
        let ghost ks = kept_view(sam_kept@);
        // the kept samples' identities and row indices
        let mut ids: Vec<String> = Vec::new();
        let mut sam_idx: Vec<usize> = Vec::new();
        let mut j: usize = 0;
        while j < sam_kept.len()
            invariant
                j <= sam_kept@.len(),
                ks == kept_view(sam_kept@),
                kept_rows(psam.column_names(), psam.records(), opt_view(sam_query), psam.rows@.len() as int) == Some(ks),
                psam.wf(),
                iid < psam.columns@.len(),
                ids.deep_view() == kept_column(ks, iid as int).take(j as int),
                sam_idx@ == kept_indices(ks).take(j as int),
            decreases sam_kept.len() - j,
        {
            proof {
                lemma_kept_rows_are_records(psam.column_names(), psam.records(), opt_view(sam_query), psam.rows@.len() as int, j as int);
            }
            let ghost p = ks[j as int];
            assert(p == (sam_kept@[j as int].0 as int, sam_kept@[j as int].1.deep_view()));
            assert(p.1 == psam.records()[p.0]);
            assert(psam.records()[p.0] == psam.rows@[p.0].deep_view());
            assert(psam.rows@[p.0]@.len() == psam.columns@.len());
            assert(sam_kept@[j as int].1.deep_view().len() == sam_kept@[j as int].1@.len());
            assert(psam.rows@[p.0].deep_view().len() == psam.rows@[p.0]@.len());
            assert(sam_kept@[j as int].1@.len() == psam.columns@.len());
            let ghost before = ids.deep_view();
            ids.push(sam_kept[j].1[iid].clone());
            sam_idx.push(sam_kept[j].0);
            assert(ids.deep_view() =~= before.push(sam_kept@[j as int].1@[iid as int]@));
            assert(sam_kept@[j as int].1@[iid as int]@ == p.1[iid as int]);
            assert(ids.deep_view() =~= kept_column(ks, iid as int).take(j + 1));
            assert(sam_idx@ =~= kept_indices(ks).take(j + 1));
            j = j + 1;
        }
        assert(ids.deep_view() =~= kept_column(ks, iid as int));
        assert(sam_idx@ =~= kept_indices(ks));
        let mut var_idx: Vec<usize> = Vec::new();
        let mut i: usize = 0;
        while i < var_kept.len()
            invariant
                i <= var_kept@.len(),
                kv == kept_view(var_kept@),
                var_idx@ == kept_indices(kv).take(i as int),
            decreases var_kept.len() - i,
        {
            var_idx.push(var_kept[i].0);
            assert(var_idx@ =~= kept_indices(kv).take(i + 1));
            i = i + 1;
        }
        assert(var_idx@ =~= kept_indices(kv));
        let calls = match self.read_genotypes(pgen_data, &var_idx, &sam_idx, batch_size) {
            Ok(c) => c,
            Err(e) => {
                return Err(e);
            },
        };
        let ghost grid = self.call_grid(pgen_data@, var_idx@, sam_idx@);
        let mut out = String::new();
        write_head(&mut out, &comments, &header, &ids);
        let ghost head = out@;
        let mut i: usize = 0;
        while i < var_kept.len()
            invariant
                i <= var_kept@.len(),
                kv == kept_view(var_kept@),
                calls@.len() == var_kept@.len(),
                grid == self.call_grid(pgen_data@, var_idx@, sam_idx@),
                var_idx@.len() == var_kept@.len(),
                self.decoded(pgen_data@, var_idx@, sam_idx@, calls@),
                out@ == head + vcf_body(kept_records(kv).take(i as int), grid.take(i as int)),
            decreases var_kept.len() - i,
        {
            assert(calls@[i as int]@ =~= grid[i as int]);
            write_row(&mut out, &var_kept[i].1, &calls[i]);
            proof {
                let rs = kept_records(kv).take(i + 1);
                let gs = grid.take(i + 1);
                assert(rs.drop_last() =~= kept_records(kv).take(i as int));
                assert(gs.drop_last() =~= grid.take(i as int));
            }
            i = i + 1;
        }
        assert(kept_records(kv).take(i as int) =~= kept_records(kv));
        assert(grid.take(i as int) =~= grid);
        Ok(out)
    }

    /// The query mode over one of the fileset's tables: for each record of
    /// `table` that passes `query` (every record where it is absent), the
    /// value of the format expression `f_string`, one line each. Built-in
    /// functions of the expression language are not available, and an
    /// expression longer than `MAX_EXPR_LEN` characters is refused.
    pub fn query_metadata(&self, table: &MetadataTable, query: Option<&str>, f_string: &str) -> (r:
        Result<Vec<String>, PgenError>)
        requires
            table.wf(),
        ensures
            r is Ok <==> !too_long(opt_view(query)) && !too_long(Some(f_string@)) && query_output(
                table.column_names(),
                table.records(),
                opt_view(query),
                f_string@,
                table.rows@.len() as int,
            ) is Some,
            r matches Ok(v) ==> Some(v.deep_view()) == query_output(
                table.column_names(),
                table.records(),
                opt_view(query),
                f_string@,
                table.rows@.len() as int,
            ),
            r matches Err(e) ==> if too_long(opt_view(query)) || too_long(Some(f_string@)) {
                e is ExpressionTooLong
            } else {
                e is Query
            },
    {
        query_lines(table, query, f_string)
    }

    /// The INFO condition of the filter `query` (keys, then operator and
    /// value), provided that every key is declared by an INFO header line of
    /// the variant table `pvar_text`.
    pub fn parse_info_query(&self, query: &str, pvar_text: &str) -> (r: Option<(Vec<String>, Vec<String>)>)
        ensures
            r is Some <==> (info_query(query@) matches Some((keys, _, _)) && forall|i: int|
                0 <= i < keys.len() ==> meta_idnames_from(pvar_text@, 0).contains(#[trigger] keys[i])),
            r matches Some((k, f)) ==> f@.len() == 2 && info_query(query@) == Some(
                (k.deep_view(), f@[0]@, f@[1]@),
            ),
    {
        let info = match FilterParser::get_info_query(query) {
            Some(v) => v,
            None => {
                return None;
            },
        };
        let valid = PvarParser::get_meta_idnames(pvar_text);
        let ghost known = meta_idnames_from(pvar_text@, 0);
        let keys = &info[0];
        let mut i: usize = 0;
        while i < keys.len()
            invariant
                i <= keys@.len(),
                valid.deep_view() == known,
                known == meta_idnames_from(pvar_text@, 0),
                info@.len() == 2,
                keys == &info@[0],
                info_query(query@) matches Some((k, _, _)) && k == keys.deep_view(),
                forall|q: int| 0 <= q < i ==> known.contains(#[trigger] keys.deep_view()[q]),
            decreases keys.len() - i,
        {
            let mut found = false;
            let mut j: usize = 0;
            while j < valid.len()
                invariant
                    j <= valid@.len(),
                    i < keys@.len(),
                    valid.deep_view() == known,
                    found ==> known.contains(keys.deep_view()[i as int]),
                    !found ==> forall|q: int| 0 <= q < j ==> known[q] != keys.deep_view()[i as int],
                decreases valid.len() - j,
            {
                if valid[j] == keys[i] {
                    assert(known[j as int] == keys.deep_view()[i as int]);
                    found = true;
                }
                j = j + 1;
            }
            if !found {
                assert(!known.contains(keys.deep_view()[i as int]));
                assert(!(forall|q: int|
                    0 <= q < keys.deep_view().len() ==> known.contains(#[trigger] keys.deep_view()[q])));
                return None;
            }
            i = i + 1;
        }
        let filter_vals = info[1].clone();
        let ghost fv = info@[1];
        assert(filter_vals@ == fv@);
        Some((info[0].clone(), filter_vals))
    }

    /// The column names of `table` joined by tabs, a line break, and its
    /// first record joined by tabs; an error where the table has no record.
    pub fn metadata_columns_and_first_row(table: &MetadataTable) -> (r: Result<String, PgenError>)
        ensures
            r matches Ok(s) ==> table.rows@.len() > 0 && s@ == joined_tab(table.column_names())
                + "\n"@ + joined_tab(table.records()[0]),
            r matches Err(e) ==> table.rows@.len() == 0 && e == PgenError::Io(IoFault::UnexpectedEof),
    {
        if table.rows.len() == 0 {
            return Err(PgenError::Io(IoFault::UnexpectedEof));
        }
        let mut out = String::new();
        write_joined(&mut out, &table.columns);
        out.append("\n");
        write_joined(&mut out, &table.rows[0]);
        assert(out@ =~= joined_tab(table.column_names()) + "\n"@ + joined_tab(table.records()[0]));
        Ok(out)
    }

    /// A request for a filter expression over the samples or the variants,
    /// built around the excerpt of `table` (its columns and first record) and
    /// the plain-language description `prompt`.
    pub fn create_ai_query(&self, query_type: &QueryType, prompt: &str, table: &MetadataTable) -> (r:
        Result<String, PgenError>)
        ensures
            r matches Ok(s) ==> table.rows@.len() > 0 && s@ == match query_type {
                QueryType::Sample => SAMPLE_PROMPT_HEAD@,
                QueryType::Variant => VARIANT_PROMPT_HEAD@,
            } + joined_tab(table.column_names()) + "\n"@ + joined_tab(table.records()[0])
                + match query_type {
                QueryType::Sample => SAMPLE_PROMPT_MIDDLE@,
                QueryType::Variant => VARIANT_PROMPT_MIDDLE@,
            } + prompt@ + match query_type {
                QueryType::Sample => SAMPLE_PROMPT_TAIL@,
                QueryType::Variant => VARIANT_PROMPT_TAIL@,
            },
            r matches Err(e) ==> table.rows@.len() == 0 && e == PgenError::Io(IoFault::UnexpectedEof),
    {
        let excerpt = match Self::metadata_columns_and_first_row(table) {
            Ok(s) => s,
            Err(e) => {
                return Err(e);
            },
        };
        let (head, middle, tail) = match query_type {
            QueryType::Sample => (SAMPLE_PROMPT_HEAD, SAMPLE_PROMPT_MIDDLE, SAMPLE_PROMPT_TAIL),
            QueryType::Variant => (VARIANT_PROMPT_HEAD, VARIANT_PROMPT_MIDDLE, VARIANT_PROMPT_TAIL),
        };
        let mut out = String::from_str(head);
        out.append(excerpt.as_str());
        out.append(middle);
        out.append(prompt);
        out.append(tail);
        Ok(out)
    }

    /// Reads the container header `header` of the fileset named by
    /// `pfile_prefix`. A fixed-width container needs the 12-byte preamble; a
    /// general one is validated through its offset table and header body.
    pub fn from_header(pfile_prefix: String, header: &[u8]) -> (r: Result<Pfile, PgenError>)
        ensures
            r is Ok <==> container_fault(header@) is None,
            r matches Err(e) ==> container_fault(header@) == Some(e),
            r matches Ok(p) ==> {
                &&& p.pfile_prefix == pfile_prefix
                &&& p.storage_mode == header@[2]
                &&& p.num_variants == le_u32(header@, 3)
                &&& p.num_samples == le_u32(header@, 7)
                &&& p.variant_records_offset == records_offset_of(header@)
            },
    {
        match check_preamble(header, false) {
            Ok(()) => {},
            Err(e) => {
                return Err(e);
            },
        }
        let storage_mode = header[2];
        let num_variants = read_le_u32(header, 3);
        let num_samples = read_le_u32(header, 7);
        if storage_mode == SIMPLE_MODE {
            if header[11] != SIMPLE_FLAGS {
                return Err(PgenError::Format(FormatError::UnsupportedFlags));
            }
            Ok(Pfile {
                pfile_prefix,
                num_variants,
                num_samples,
                storage_mode,
                variant_records_offset: PREAMBLE_SIZE,
            })
        } else {
            let path = pgen_path_of(&pfile_prefix);
            match Pgen::from_bytes(path, header) {
                Ok(pgen) => {
                    let variant_records_offset = pgen.variant_records_offset();
                    Ok(Pfile {
                        pfile_prefix,
                        num_variants,
                        num_samples,
                        storage_mode,
                        variant_records_offset,
                    })
                },
                Err(e) => Err(e),
            }
        }
    }

    /// Path of the genotype container.
    pub fn pgen_path(&self) -> (r: String)
        ensures
            r@ == self.pfile_prefix@ + ".pgen"@,
    {
        pgen_path_of(&self.pfile_prefix)
    }

    /// Path of the sample table.
    pub fn psam_path(&self) -> (r: String)
        ensures
            r@ == self.pfile_prefix@ + ".psam"@,
    {
        let mut p = self.pfile_prefix.clone();
        p.append(".psam");
        p
    }

    /// Path of the variant table.
    pub fn pvar_path(&self) -> (r: String)
        ensures
            r@ == self.pfile_prefix@ + ".pvar"@,
    {
        let mut p = self.pfile_prefix.clone();
        p.append(".pvar");
        p
    }

    /// Bytes of one variant's record in the fixed-width layout.
    pub fn variant_record_size(&self) -> (r: u32)
        ensures
            r == record_size(self.num_samples as int),
    {
        let n = self.num_samples;
        n / 4 + if n % 4 == 0 {
            0
        } else {
            1
        }
    }

    /// Decodes the calls of `samples` for each of `variants` out of the
    /// container bytes `data`. Variants that follow each other in the file
    /// are read in runs of up to `batch_size` records, one slice per run.
    pub fn read_genotypes(
        &self,
        data: &[u8],
        variants: &Vec<usize>,
        samples: &Vec<usize>,
        batch_size: usize,
    ) -> (r: Result<Vec<Vec<GenotypeCall>>, PgenError>)
        requires
            batch_size >= 1,
        ensures
            r is Ok <==> self.decode_fault(data@, variants@, samples@) is None,
            r matches Err(e) ==> self.decode_fault(data@, variants@, samples@) == Some(e),
            r matches Ok(calls) ==> self.decoded(data@, variants@, samples@, calls@),
    {
        if self.storage_mode != SIMPLE_MODE {
            return Err(PgenError::Format(FormatError::UnsupportedDecode));
        }
        let ns = self.num_samples as usize;
        let nv = self.num_variants as usize;
        let mut j: usize = 0;
        while j < samples.len()
            invariant
                ns == self.num_samples,
                self.storage_mode == SIMPLE_MODE,
                forall|k: int| 0 <= k < j ==> #[trigger] samples[k] < ns,
            decreases samples.len() - j,
        {
            if samples[j] >= ns {
                assert(samples@[j as int] >= self.num_samples);
                return Err(PgenError::Io(IoFault::IndexOutOfRange));
            }
            j = j + 1;
        }
        let mut i: usize = 0;
        while i < variants.len()
            invariant
                nv == self.num_variants,
                forall|k: int| 0 <= k < i ==> #[trigger] variants[k] < nv,
                forall|k: int| 0 <= k < samples.len() ==> #[trigger] samples[k] < ns,
                ns == self.num_samples,
                self.storage_mode == SIMPLE_MODE,
            decreases variants.len() - i,
        {
            if variants[i] >= nv {
                assert(variants@[i as int] >= self.num_variants);
                return Err(PgenError::Io(IoFault::IndexOutOfRange));
            }
            i = i + 1;
        }
        let rs = self.variant_record_size() as u64;
        let rsu = self.variant_record_size() as usize;
        let ghost rsi = record_size(self.num_samples as int);
        assert(forall|k: int| 0 <= k < samples.len() ==> #[trigger] samples[k] / 4 < rsi) by {
            assert forall|k: int| 0 <= k < samples.len() implies #[trigger] samples[k] / 4 < rsi by {
                let s = samples[k] as int;
                let n = self.num_samples as int;
                assert(s / 4 < (2 * n + 7) / 8) by (nonlinear_arith)
                    requires
                        0 <= s < n,
                ;
            }
        };
        let n = variants.len();
        let dlen = data.len();
        let mut out: Vec<Vec<GenotypeCall>> = Vec::new();
        let mut i: usize = 0;
        while i < n
            invariant
                n == variants.len(),
                i <= n,
                rs == rsi,
                rsu == rsi,
                rsi == record_size(self.num_samples as int),
                rsi <= 1073741824,
                self.storage_mode == SIMPLE_MODE,
                dlen == data@.len(),
                forall|k: int| 0 <= k < n ==> #[trigger] variants[k] < self.num_variants,
                forall|k: int| 0 <= k < samples.len() ==> #[trigger] samples[k] < self.num_samples,
                forall|k: int| 0 <= k < samples.len() ==> #[trigger] samples[k] / 4 < rsi,
                forall|k: int|
                    0 <= k < i ==> PREAMBLE_SIZE + (#[trigger] variants[k] + 1) * rsi <= data@.len(),
                out@.len() == i,
                forall|k: int|
                    0 <= k < i ==> (#[trigger] out@[k])@.len() == samples.len(),
                forall|k: int, q: int|
                    0 <= k < i && 0 <= q < samples.len() ==> #[trigger] out@[k][q]
                        == self.call_at(data@, variants[k] as int, samples[q] as int),
            decreases n - i,
        {
            // the run of variants that follow each other in the file
            let mut j: usize = i + 1;
            while j < n && j - i < batch_size && variants[j - 1] < usize::MAX && variants[j]
                == variants[j - 1] + 1
                invariant
                    i < j <= n,
                    n == variants.len(),
                    forall|k: int| i <= k < j ==> #[trigger] variants[k] == variants[i as int] + (k - i),
                decreases n - j,
            {
                j = j + 1;
            }
            let first = variants[i] as u64;
            let last = variants[j - 1] as u64;
            assert(PREAMBLE_SIZE + (last + 1) * rsi <= 12 + 4294967296 * 1073741824)
                by (nonlinear_arith)
                requires
                    last < 4294967296,
                    0 <= rsi <= 1073741824,
            ;
            assert(first * rsi <= last * rsi && (last + 1) * rsi == last * rsi + rsi)
                by (nonlinear_arith)
                requires
                    first <= last,
                    0 <= rsi,
            ;
            let lo: u64 = PREAMBLE_SIZE + first * rs;
            let hi: u64 = PREAMBLE_SIZE + (last + 1) * rs;
            if hi > data.len() as u64 {
                assert(PREAMBLE_SIZE + (variants[j - 1] + 1) * rsi > data@.len());
                return Err(PgenError::Io(IoFault::UnexpectedEof));
            }
            let buf = &data[lo as usize..hi as usize];
            let mut k: usize = i;
            while k < j
                invariant
                    i <= k <= j,
                    j <= n,
                    n == variants.len(),
                    rs == rsi,
                    rsu == rsi,
                    rsi == record_size(self.num_samples as int),
                    rsi <= 1073741824,
                    first == variants[i as int],
                    last == variants[j - 1],
                    lo == PREAMBLE_SIZE + first * rsi,
                    hi == PREAMBLE_SIZE + (last + 1) * rsi,
                    lo <= hi,
                    hi <= data@.len(),
                    dlen == data@.len(),
                    buf@ == data@.subrange(lo as int, hi as int),
                    forall|q: int| i <= q < j ==> #[trigger] variants[q] == variants[i as int] + (q - i),
                    forall|q: int| 0 <= q < samples.len() ==> #[trigger] samples[q] / 4 < rsi,
                    forall|q: int|
                        0 <= q < k ==> PREAMBLE_SIZE + (#[trigger] variants[q] + 1) * rsi <= data@.len(),
                    out@.len() == k,
                    forall|q: int|
                        0 <= q < k ==> (#[trigger] out@[q])@.len() == samples.len(),
                    forall|q: int, p: int|
                        0 <= q < k && 0 <= p < samples.len() ==> #[trigger] out@[q][p]
                            == self.call_at(data@, variants[q] as int, samples[p] as int),
                decreases j - k,
            {
                let ghost v = variants[k as int] as int;
                let off = k - i;
                assert(off * rsi + rsi <= (last - first + 1) * rsi && v * rsi + rsi == (v + 1) * rsi
                    && lo + off * rsi == PREAMBLE_SIZE + v * rsi && (last - first + 1) * rsi == hi
                    - lo) by (nonlinear_arith)
                    requires
                        v == first + off,
                        v <= last,
                        lo == PREAMBLE_SIZE + first * rsi,
                        hi == PREAMBLE_SIZE + (last + 1) * rsi,
                        0 <= rsi,
                ;
                assert(off * rsi + rsi <= dlen);
                let a = off * rsu;
                let rec = &buf[a..a + rsu];
                assert(rec@ =~= self.record_of(data@, v));
                let calls = decode_record(rec, samples);
                out.push(calls);
                k = k + 1;
            }
            i = j;
        }
        assert(self.decode_fault(data@, variants@, samples@) is None);
        Ok(out)
    }
}

/// Decoding does not depend on how variants are batched: any two results
/// that `read_genotypes` may return for the same container, variants and
/// samples, whatever batch sizes the two calls used, hold the same calls.
pub proof fn lemma_batch_size_invariant(
    p: &Pfile,
    data: Seq<u8>,
    variants: Seq<usize>,
    samples: Seq<usize>,
    a: Seq<Vec<GenotypeCall>>,
    b: Seq<Vec<GenotypeCall>>,
)
    requires
        p.decoded(data, variants, samples, a),
        p.decoded(data, variants, samples, b),
    ensures
        a.len() == b.len(),
        forall|i: int| 0 <= i < a.len() ==> (#[trigger] a[i])@ == b[i]@,
{
    assert forall|i: int| 0 <= i < a.len() implies (#[trigger] a[i])@ == b[i]@ by {
        assert(a[i]@ =~= b[i]@);
    }
}

/// Each genotype field that the variant-call text holds (`call_grid`, written
/// by its `spec_text`) comes from a two-bit code of the container, whatever
/// its bytes, and is written as `0/0`, `0/1`, `1/1` or `./.` for the codes
/// `00`, `01`, `10`, `11`: never anything else.
pub proof fn lemma_written_calls(
    p: &Pfile,
    data: Seq<u8>,
    variants: Seq<usize>,
    samples: Seq<usize>,
    i: int,
    j: int,
)
    requires
        0 <= i < variants.len(),
        0 <= j < samples.len(),
    ensures
        ({
            let code = sample_code(p.record_of(data, variants[i] as int), samples[j] as int);
            let text = p.call_grid(data, variants, samples)[i][j].spec_text();
            &&& code < 4
            &&& p.call_grid(data, variants, samples)[i][j] == GenotypeCall::spec_from_code(code)
            &&& code == 0 ==> text == "0/0"@
            &&& code == 1 ==> text == "0/1"@
            &&& code == 2 ==> text == "1/1"@
            &&& code == 3 ==> text == "./."@
        }),
{
    let s = samples[j] as int;
    lemma_code_in_range(p.record_of(data, variants[i] as int)[s / 4], s % 4);
    let code = sample_code(p.record_of(data, variants[i] as int), s);
    lemma_code_mapping_total(code, code);
}

proof fn lemma_kept_rows_are_records(
    cols: Seq<Seq<char>>,
    rows: Seq<Seq<Seq<char>>>,
    query: Option<Seq<char>>,
    n: int,
    j: int,
)
    requires
        0 <= n <= rows.len(),
        kept_rows(cols, rows, query, n) is Some,
        0 <= j < kept_rows(cols, rows, query, n)->0.len(),
    ensures
        ({
            let p = kept_rows(cols, rows, query, n)->0[j];
            0 <= p.0 < n && p.1 == rows[p.0]
        }),
    decreases n,
{
    if n > 0 {
        let k = kept_rows(cols, rows, query, n - 1)->0;
        if j < k.len() {
            lemma_kept_rows_are_records(cols, rows, query, n - 1, j);
        }
    }
}

/// `prefix` followed by the container's file extension.
fn pgen_path_of(prefix: &String) -> (r: String)
    ensures
        r@ == prefix@ + ".pgen"@,
{
    let mut p = prefix.clone();
    p.append(".pgen");
    p
}

} // verus!
