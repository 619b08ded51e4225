//! The pricing table: parsing a plain-text cost table into per-model
//! pricing rows, keyed by model name.
//!
//! Costs are held in micro-dollars per million tokens, so that the table
//! and every estimate derived from it stay in exact integer arithmetic.
//! Token-limit cells accept `k` and `M` suffixes and map the
//! unlimited/unknown spellings to the sentinel `usize::MAX`.

use vstd::prelude::*;

use crate::text::all_digits;
use crate::text::contains_seq;
use crate::text::contains_str;
use crate::text::digit_char;
use crate::text::find_char_from;
use crate::text::is_digit_char;
use crate::text::lemma_find_char_is;
use crate::text::lower_str;
use crate::text::parse_decimal_scaled;
use crate::text::parse_digits_u64;
use crate::text::push_char;
use crate::text::spec_digits_val;
use crate::text::spec_decimal_u64;
use crate::text::spec_find_char;
use crate::text::spec_lower;
use crate::text::spec_split_lines;
use crate::text::spec_strip_suffix_run;
use crate::text::spec_trim;
use crate::text::split_lines;
use crate::text::starts_with_seq;
use crate::text::str_eq;
use crate::text::str_starts_with;
use crate::text::strip_suffix_run;
use crate::text::trim_str;

verus! {

/// Why a pricing table or one of its cells could not be parsed.
#[derive(Clone, Copy, Debug, PartialEq, Eq, Structural)]
pub enum PriceError {
    /// The table header row was never found.
    HeaderNotFound,
    /// The table parsed but held no pricing rows.
    NoRows,
    /// A cost cell was neither a price nor an unknown-marker.
    BadCost,
    /// A token-limit cell was neither a count nor an unknown-marker.
    BadLimit,
}

/// Pricing of one model. Costs are in micro-dollars per million tokens;
/// `None` marks a cost the table left unknown. Token limits use
/// `usize::MAX` as the unlimited/unknown sentinel.
#[derive(Clone, Debug)]
pub struct ModelPricing {
    pub model_name: String,
    pub input_cost_per_million: Option<u64>,
    pub output_cost_per_million: Option<u64>,
    pub max_prompt_tokens: usize,
    pub max_output_tokens: usize,
}

/// Spec model of a `ModelPricing`.
pub struct ModelPricingModel {
    pub model_name: Seq<char>,
    pub input_cost_per_million: Option<u64>,
    pub output_cost_per_million: Option<u64>,
    pub max_prompt_tokens: usize,
    pub max_output_tokens: usize,
}

impl DeepView for ModelPricing {
    type V = ModelPricingModel;

    open spec fn deep_view(&self) -> ModelPricingModel {
        ModelPricingModel {
            model_name: self.model_name@,
            input_cost_per_million: self.input_cost_per_million,
            output_cost_per_million: self.output_cost_per_million,
            max_prompt_tokens: self.max_prompt_tokens,
            max_output_tokens: self.max_output_tokens,
        }
    }
}

impl DeepView for PriceError {
    type V = PriceError;

    open spec fn deep_view(&self) -> PriceError {
        *self
    }
}

/// The spellings that mark a cell's value as unknown or unlimited.
pub open spec fn spec_missing_field(t: Seq<char>) -> bool {
    t == "nan"@ || t == "n/a"@ || t == "unlimited"@ || t == "--"@ || t == "-"@ || t.len() == 0
}

/// Whether `t` is one of the unknown/unlimited spellings.
pub fn missing_field(t: &str) -> (r: bool)
    ensures
        r == spec_missing_field(t@),
{
    t.unicode_len() == 0 || str_eq(t, "nan") || str_eq(t, "n/a") || str_eq(t, "unlimited")
        || str_eq(t, "--") || str_eq(t, "-")
}

/// A character a cost cell keeps after cleaning: a digit or the point.
pub open spec fn spec_clean_cost_char(c: char) -> bool {
    is_digit_char(c) || c == '.'
}

/// The digits and decimal points of `s`, in order: the cleaning a cost
/// cell gets before it is read as a number.
pub open spec fn spec_clean_cost(s: Seq<char>) -> Seq<char> {
    s.filter(|c: char| spec_clean_cost_char(c))
}

/// `s` without its commas: the cleaning a token-limit cell gets.
pub open spec fn spec_clean_commas(s: Seq<char>) -> Seq<char> {
    s.filter(|c: char| c != ',')
}

/// One step of `spec_clean_cost` along a prefix.
proof fn lemma_clean_cost_step(s: Seq<char>, j: int)
    requires
        0 <= j < s.len(),
    ensures
        spec_clean_cost(s.subrange(0, j + 1)) == (if spec_clean_cost_char(s[j]) {
            spec_clean_cost(s.subrange(0, j)).push(s[j])
        } else {
            spec_clean_cost(s.subrange(0, j))
        }),
{
    reveal_with_fuel(Seq::<char>::filter, 2);
    assert(s.subrange(0, j + 1).drop_last() =~= s.subrange(0, j));
    assert(s.subrange(0, j + 1).last() == s[j]);
}

/// One step of `spec_clean_commas` along a prefix.
proof fn lemma_clean_commas_step(s: Seq<char>, j: int)
    requires
        0 <= j < s.len(),
    ensures
        spec_clean_commas(s.subrange(0, j + 1)) == (if s[j] != ',' {
            spec_clean_commas(s.subrange(0, j)).push(s[j])
        } else {
            spec_clean_commas(s.subrange(0, j))
        }),
{
    reveal_with_fuel(Seq::<char>::filter, 2);
    assert(s.subrange(0, j + 1).drop_last() =~= s.subrange(0, j));
    assert(s.subrange(0, j + 1).last() == s[j]);
}

/// `s` without its commas.
fn clean_commas(s: &str) -> (r: String)
    ensures
        r@ == spec_clean_commas(s@),
{
    let len = s.unicode_len();
    let mut r = String::new();
    let mut j: usize = 0;
    proof {
        assert(s@.subrange(0, 0) =~= Seq::<char>::empty());
        assert(spec_clean_commas(Seq::<char>::empty()) =~= Seq::<char>::empty());
    }
    while j < len
        invariant
            len == s@.len(),
            0 <= j <= len,
            r@ == spec_clean_commas(s@.subrange(0, j as int)),
        decreases len - j,
    {
        let c = s.get_char(j);
        proof {
            lemma_clean_commas_step(s@, j as int);
        }
        if c != ',' {
            push_char(&mut r, c);
        }
        j += 1;
    }
    proof {
        assert(s@.subrange(0, len as int) =~= s@);
    }
    r
}

/// What a cost cell means: an unknown-marker is an absent cost; anything
/// else is cleaned to digits and points and read as dollars at six
/// fractional digits, giving micro-dollars.
pub open spec fn spec_parse_cost(s: Seq<char>) -> Result<Option<u64>, PriceError> {
    if spec_missing_field(s) {
        Ok(None)
    } else {
        match spec_decimal_u64(spec_clean_cost(s), 6) {
            Some(v) => Ok(Some(v)),
            None => Err(PriceError::BadCost),
        }
    }
}

/// Reads a cost cell such as `$15.00` into micro-dollars per million
/// tokens, in the sense of `spec_parse_cost`.
pub fn parse_cost(cost_str: &str) -> (r: Result<Option<u64>, PriceError>)
    ensures
        r == spec_parse_cost(cost_str@),
{
    if missing_field(cost_str) {
        return Ok(None);
    }
    let len = cost_str.unicode_len();
    let mut cleaned = String::new();
    let mut j: usize = 0;
    proof {
        assert(cost_str@.subrange(0, 0) =~= Seq::<char>::empty());
        assert(spec_clean_cost(Seq::<char>::empty()) =~= Seq::<char>::empty());
    }
    while j < len
        invariant
            len == cost_str@.len(),
            0 <= j <= len,
            cleaned@ == spec_clean_cost(cost_str@.subrange(0, j as int)),
        decreases len - j,
    {
        let c = cost_str.get_char(j);
        proof {
            lemma_clean_cost_step(cost_str@, j as int);
        }
        if digit_char(c) || c == '.' {
            push_char(&mut cleaned, c);
        }
        j += 1;
    }
    proof {
        assert(cost_str@.subrange(0, len as int) =~= cost_str@);
    }
    match parse_decimal_scaled(cleaned.as_str(), 6) {
        Some(v) => Ok(Some(v)),
        None => Err(PriceError::BadCost),
    }
}

/// A decimal with a scale suffix, clipped to `usize`.
pub open spec fn spec_scaled_limit(base: Seq<char>, scale: nat) -> Result<usize, PriceError> {
    match spec_decimal_u64(base, scale) {
        Some(v) => if v <= usize::MAX {
            Ok(v as usize)
        } else {
            Err(PriceError::BadLimit)
        },
        None => Err(PriceError::BadLimit),
    }
}

/// What a token-limit cell means: after trimming and lowercasing, an
/// unknown/unlimited marker is the sentinel `usize::MAX`; a `k` suffix
/// scales by a thousand and an `m` suffix by a million, reading the base
/// as a decimal without its commas; anything else must be a plain digit
/// string, commas allowed.
pub open spec fn spec_parse_token_limit(s: Seq<char>) -> Result<usize, PriceError> {
    let t = spec_lower(spec_trim(s));
    if spec_missing_field(t) {
        Ok(usize::MAX)
    } else if t.len() > 0 && t.last() == 'k' {
        spec_scaled_limit(spec_clean_commas(spec_strip_suffix_run(t, 'k')), 3)
    } else if t.len() > 0 && t.last() == 'm' {
        spec_scaled_limit(spec_clean_commas(spec_strip_suffix_run(t, 'm')), 6)
    } else {
        let cleaned = spec_clean_commas(t);
        if all_digits(cleaned) && cleaned.len() > 0 && spec_digits_val(cleaned) <= usize::MAX {
            Ok(spec_digits_val(cleaned) as usize)
        } else {
            Err(PriceError::BadLimit)
        }
    }
}

/// Reads a token-limit cell such as `200k`, `1M`, `200,000` or
/// `unlimited`, in the sense of `spec_parse_token_limit`.
pub fn parse_token_limit(limit_str: &str) -> (r: Result<usize, PriceError>)
    ensures
        r == spec_parse_token_limit(limit_str@),
{
    let trimmed = trim_str(limit_str);
    let low = lower_str(trimmed);
    if missing_field(low.as_str()) {
        return Ok(usize::MAX);
    }
    let tlen = low.as_str().unicode_len();
    if tlen > 0 && low.as_str().get_char(tlen - 1) == 'k' {
        let base = strip_suffix_run(low.as_str(), 'k');
        let cleaned = clean_commas(base);
        scaled_limit(cleaned.as_str(), 3)
    } else if tlen > 0 && low.as_str().get_char(tlen - 1) == 'm' {
        let base = strip_suffix_run(low.as_str(), 'm');
        let cleaned = clean_commas(base);
        scaled_limit(cleaned.as_str(), 6)
    } else {
        let cleaned = clean_commas(low.as_str());
        match parse_digits_u64(cleaned.as_str()) {
            Some(v) => if v <= usize::MAX as u64 {
                Ok(v as usize)
            } else {
                Err(PriceError::BadLimit)
            },
            None => Err(PriceError::BadLimit),
        }
    }
}

/// A decimal base with a scale, clipped to `usize`, in the sense of
/// `spec_scaled_limit`.
fn scaled_limit(base: &str, scale: usize) -> (r: Result<usize, PriceError>)
    requires
        scale <= 6,
    ensures
        r == spec_scaled_limit(base@, scale as nat),
{
    match parse_decimal_scaled(base, scale) {
        Some(v) => if v <= usize::MAX as u64 {
            Ok(v as usize)
        } else {
            Err(PriceError::BadLimit)
        },
        None => Err(PriceError::BadLimit),
    }
}

/// The cells of one table row: the row split at pipes, each piece
/// trimmed, empty pieces dropped.
pub open spec fn spec_columns(s: Seq<char>) -> Seq<Seq<char>>
    decreases s.len(),
{
    let i = spec_find_char(s, '|');
    if 0 <= i < s.len() {
        let piece = spec_trim(s.subrange(0, i));
        let rest = spec_columns(s.subrange(i + 1, s.len() as int));
        if piece.len() == 0 {
            rest
        } else {
            seq![piece] + rest
        }
    } else {
        let piece = spec_trim(s);
        if piece.len() == 0 {
            Seq::<Seq<char>>::empty()
        } else {
            seq![piece]
        }
    }
}

/// Splits one table row into its cells, in the sense of `spec_columns`.
pub fn split_columns(line: &str) -> (r: Vec<String>)
    ensures
        r.deep_view() == spec_columns(line@),
{
    let len = line.unicode_len();
    let mut r: Vec<String> = Vec::new();
    let mut pos: usize = 0;
    proof {
        assert(line@.subrange(0, len as int) =~= line@);
        assert(r.deep_view() =~= Seq::<Seq<char>>::empty());
        assert(r.deep_view() + spec_columns(line@) =~= spec_columns(line@));
    }
    while pos < len
        invariant
            len == line@.len(),
            0 <= pos <= len,
            spec_columns(line@) =~= r.deep_view() + spec_columns(
                line@.subrange(pos as int, len as int),
            ),
        decreases len - pos,
    {
        let i = find_char_from(line, pos, '|');
        let piece = trim_str(line.substring_char(pos, i));
        let ghost old_r = r.deep_view();
        if piece.unicode_len() > 0 {
            r.push(piece.to_owned());
        }
        proof {
            let tail = line@.subrange(pos as int, len as int);
            lemma_find_char_is(tail, '|', i - pos);
            assert(tail.subrange(0, i - pos) =~= line@.subrange(pos as int, i as int));
            if i < len {
                assert(tail.subrange(i - pos + 1, tail.len() as int) =~= line@.subrange(
                    i as int + 1,
                    len as int,
                ));
                if piece@.len() == 0 {
                    assert(r.deep_view() =~= old_r);
                    assert(spec_columns(tail) =~= spec_columns(
                        line@.subrange(i as int + 1, len as int),
                    ));
                } else {
                    assert(r.deep_view() =~= old_r.push(piece@));
                    assert(spec_columns(tail) =~= seq![piece@] + spec_columns(
                        line@.subrange(i as int + 1, len as int),
                    ));
                }
                assert(spec_columns(line@) =~= r.deep_view() + spec_columns(
                    line@.subrange(i as int + 1, len as int),
                ));
            } else {
                assert(tail =~= line@.subrange(pos as int, i as int));
                assert(line@.subrange(len as int, len as int) =~= Seq::<char>::empty());
                assert(spec_columns(line@.subrange(len as int, len as int))
                    =~= Seq::<Seq<char>>::empty());
                if piece@.len() == 0 {
                    assert(r.deep_view() =~= old_r);
                    assert(spec_columns(tail) =~= Seq::<Seq<char>>::empty());
                } else {
                    assert(r.deep_view() =~= old_r.push(piece@));
                    assert(spec_columns(tail) =~= seq![piece@]);
                }
                assert(spec_columns(line@) =~= r.deep_view() + spec_columns(
                    line@.subrange(len as int, len as int),
                ));
            }
        }
        pos = if i < len {
            i + 1
        } else {
            len
        };
    }
    proof {
        assert(line@.subrange(pos as int, len as int) =~= Seq::<char>::empty());
        assert(spec_columns(line@.subrange(pos as int, len as int)) =~= Seq::<Seq<char>>::empty());
        assert(spec_columns(line@) =~= r.deep_view());
    }
    r
}

/// What one data row means, given its cells: the first cell names the
/// model, then input cost, output cost, prompt limit and output limit.
pub open spec fn spec_parse_row(cols: Seq<Seq<char>>) -> Result<ModelPricingModel, PriceError>
    recommends
        cols.len() >= 5,
{
    match spec_parse_cost(cols[1]) {
        Err(e) => Err(e),
        Ok(ic) => match spec_parse_cost(cols[2]) {
            Err(e) => Err(e),
            Ok(oc) => match spec_parse_token_limit(cols[3]) {
                Err(e) => Err(e),
                Ok(mp) => match spec_parse_token_limit(cols[4]) {
                    Err(e) => Err(e),
                    Ok(mo) => Ok(
                        ModelPricingModel {
                            model_name: cols[0],
                            input_cost_per_million: ic,
                            output_cost_per_million: oc,
                            max_prompt_tokens: mp,
                            max_output_tokens: mo,
                        },
                    ),
                },
            },
        },
    }
}

/// Reads one data row from its cells, in the sense of `spec_parse_row`.
fn parse_row(cols: &Vec<String>) -> (r: Result<ModelPricing, PriceError>)
    requires
        cols@.len() >= 5,
    ensures
        (match r {
            Ok(p) => spec_parse_row(cols.deep_view()) == Ok::<ModelPricingModel, PriceError>(
                p.deep_view(),
            ),
            Err(e) => spec_parse_row(cols.deep_view()) == Err::<ModelPricingModel, PriceError>(e),
        }),
{
    let ic = match parse_cost(cols[1].as_str()) {
        Ok(c) => c,
        Err(e) => {
            return Err(e);
        },
    };
    let oc = match parse_cost(cols[2].as_str()) {
        Ok(c) => c,
        Err(e) => {
            return Err(e);
        },
    };
    let mp = match parse_token_limit(cols[3].as_str()) {
        Ok(v) => v,
        Err(e) => {
            return Err(e);
        },
    };
    let mo = match parse_token_limit(cols[4].as_str()) {
        Ok(v) => v,
        Err(e) => {
            return Err(e);
        },
    };
    Ok(
        ModelPricing {
            model_name: cols[0].clone(),
            input_cost_per_million: ic,
            output_cost_per_million: oc,
            max_prompt_tokens: mp,
            max_output_tokens: mo,
        },
    )
}

/// The prefix that marks the table's header row.
pub open spec fn spec_header_mark() -> Seq<char> {
    "| Model Name"@
}

/// The index of the first header row at or after `i`, if any.
pub open spec fn spec_header_idx(lines: Seq<Seq<char>>, i: int) -> Option<int>
    decreases lines.len() - i,
{
    if i < 0 || i >= lines.len() {
        None
    } else if starts_with_seq(lines[i], spec_header_mark()) {
        Some(i)
    } else {
        spec_header_idx(lines, i + 1)
    }
}

/// The rows read from `lines[i..]`: rows not containing the filter are
/// skipped, the table ends at the first line not starting with a pipe,
/// rows with fewer than five cells are skipped, and a cell that fails to
/// parse fails the whole table.
pub open spec fn spec_parse_rows(
    lines: Seq<Seq<char>>,
    i: int,
    filter: Option<Seq<char>>,
) -> Result<Seq<ModelPricingModel>, PriceError>
    decreases lines.len() - i,
{
    if i < 0 || i >= lines.len() {
        Ok(Seq::empty())
    } else if (match filter {
        Some(f) => !contains_seq(lines[i], f),
        None => false,
    }) {
        spec_parse_rows(lines, i + 1, filter)
    } else if !(lines[i].len() > 0 && lines[i][0] == '|') {
        Ok(Seq::empty())
    } else if spec_columns(lines[i]).len() >= 5 {
        match spec_parse_row(spec_columns(lines[i])) {
            Err(e) => Err(e),
            Ok(row) => match spec_parse_rows(lines, i + 1, filter) {
                Err(e) => Err(e),
                Ok(rest) => Ok(seq![row] + rest),
            },
        }
    } else {
        spec_parse_rows(lines, i + 1, filter)
    }
}

/// What the whole document means: the rows after the header row and its
/// separator line, a missing header or an empty result being errors.
pub open spec fn spec_parse_pricing_table(s: Seq<char>, filter: Option<Seq<char>>) -> Result<
    Seq<ModelPricingModel>,
    PriceError,
> {
    let lines = spec_split_lines(s);
    match spec_header_idx(lines, 0) {
        None => Err(PriceError::HeaderNotFound),
        Some(h) => match spec_parse_rows(lines, h + 2, filter) {
            Err(e) => Err(e),
            Ok(rows) => if rows.len() == 0 {
                Err(PriceError::NoRows)
            } else {
                Ok(rows)
            },
        },
    }
}

/// The pricing rows of one loaded table, keyed by model name; on a name
/// held by several rows, the last row wins, as in the source table.
pub struct PricingTable {
    rows: Vec<ModelPricing>,
}

impl DeepView for PricingTable {
    type V = Seq<ModelPricingModel>;

    closed spec fn deep_view(&self) -> Seq<ModelPricingModel> {
        self.rows.deep_view()
    }
}

/// The last row of `rows` whose model name is `name`, if any.
pub open spec fn spec_lookup(rows: Seq<ModelPricingModel>, name: Seq<char>) -> Option<
    ModelPricingModel,
>
    decreases rows.len(),
{
    if rows.len() == 0 {
        None
    } else if rows.last().model_name == name {
        Some(rows.last())
    } else {
        spec_lookup(rows.drop_last(), name)
    }
}

impl PricingTable {
    /// How many rows the table holds.
    pub fn row_count(&self) -> (n: usize)
        ensures
            n == self.deep_view().len(),
    {
        self.rows.len()
    }

    /// The pricing of the model called `name`, if the table holds one.
    pub fn get(&self, name: &str) -> (r: Option<&ModelPricing>)
        ensures
            r.deep_view() == spec_lookup(self.deep_view(), name@),
    {
        let n = self.rows.len();
        let mut i: usize = n;
        proof {
            assert(self.rows.deep_view().subrange(0, n as int) =~= self.rows.deep_view());
        }
        while i > 0
            invariant
                n == self.rows@.len(),
                0 <= i <= n,
                spec_lookup(self.deep_view(), name@) == spec_lookup(
                    self.rows.deep_view().subrange(0, i as int),
                    name@,
                ),
        decreases i,
        {
            let ghost pre = self.rows.deep_view().subrange(0, i as int);
            proof {
                assert(pre.last() == self.rows[i - 1].deep_view());
                assert(pre.drop_last() =~= self.rows.deep_view().subrange(0, i as int - 1));
            }
            if str_eq(self.rows[i - 1].model_name.as_str(), name) {
                return Some(&self.rows[i - 1]);
            }
            i -= 1;
        }
        proof {
            assert(self.rows.deep_view().subrange(0, 0) =~= Seq::<ModelPricingModel>::empty());
        }
        None
    }
}

/// Parses the pricing document into a table, in the sense of
/// `spec_parse_pricing_table`: rows follow the header and its separator
/// line; with a model-name filter, only rows mentioning that name are
/// kept. Fails when the header is never found, when a cell is malformed,
/// or when no row parses.
pub fn parse_pricing_table(markdown: &str, model_name: Option<&str>) -> (r: Result<
    PricingTable,
    PriceError,
>)
    ensures
        (match r {
            Ok(t) => spec_parse_pricing_table(markdown@, model_name.deep_view()) == Ok::<
                Seq<ModelPricingModel>,
                PriceError,
            >(t.deep_view()),
            Err(e) => spec_parse_pricing_table(markdown@, model_name.deep_view()) == Err::<
                Seq<ModelPricingModel>,
                PriceError,
            >(e),
        }),
{
    let lines = split_lines(markdown);
    let n = lines.len();
    let ghost lv = lines.deep_view();
    // find the header row
    let mut h: usize = 0;
    while h < n && !str_starts_with(lines[h].as_str(), "| Model Name")
        invariant
            n == lines@.len(),
            lv == lines.deep_view(),
            0 <= h <= n,
            spec_header_idx(lv, 0) == spec_header_idx(lv, h as int),
        decreases n - h,
    {
        proof {
            assert(lv[h as int] == lines[h as int].deep_view());
        }
        h += 1;
    }
    if h == n {
        return Err(PriceError::HeaderNotFound);
    }
    proof {
        assert(lv[h as int] == lines[h as int].deep_view());
        assert(spec_header_idx(lv, h as int) == Some(h as int));
    }
    // read the data rows, which start after the separator line
    let start = if n - h >= 2 {
        h + 2
    } else {
        n
    };
    proof {
        if n - h < 2 {
            assert(spec_parse_rows(lv, h as int + 2, model_name.deep_view()) == Ok::<Seq<ModelPricingModel>, PriceError>(
                Seq::<ModelPricingModel>::empty(),
            ));
            assert(spec_parse_rows(lv, n as int, model_name.deep_view()) == Ok::<Seq<ModelPricingModel>, PriceError>(
                Seq::<ModelPricingModel>::empty(),
            ));
        }
    }
    let mut rows: Vec<ModelPricing> = Vec::new();
    let mut i: usize = start;
    proof {
        assert(rows.deep_view() =~= Seq::<ModelPricingModel>::empty());
    }
    while i < n
        invariant
            n == lines@.len(),
            lv == lines.deep_view(),
            lv == spec_split_lines(markdown@),
            start <= i <= n,
            h < n,
            start == (if n - h >= 2 {
                h + 2
            } else {
                n as int
            }),
            spec_header_idx(lv, 0) == Some(h as int),
            spec_parse_rows(lv, h as int + 2, model_name.deep_view()) == spec_parse_rows(
                lv,
                start as int,
                model_name.deep_view(),
            ),
            (match spec_parse_rows(lv, i as int, model_name.deep_view()) {
                Ok(rest) => spec_parse_rows(lv, start as int, model_name.deep_view()) == Ok::<
                    Seq<ModelPricingModel>,
                    PriceError,
                >(rows.deep_view() + rest),
                Err(e) => spec_parse_rows(lv, start as int, model_name.deep_view()) == Err::<
                    Seq<ModelPricingModel>,
                    PriceError,
                >(e),
            }),
        decreases n - i,
    {
        proof {
            assert(lv[i as int] == lines[i as int].deep_view());
        }
        let line = &lines[i];
        let skip = match model_name {
            Some(f) => !contains_str(line.as_str(), f),
            None => false,
        };
        if skip {
            i += 1;
            continue ;
        }
        let line_len = line.as_str().unicode_len();
        if !(line_len > 0 && line.as_str().get_char(0) == '|') {
            proof {
                assert(spec_parse_rows(lv, i as int, model_name.deep_view()) == Ok::<Seq<ModelPricingModel>, PriceError>(
                    Seq::<ModelPricingModel>::empty(),
                ));
                assert(rows.deep_view() + Seq::<ModelPricingModel>::empty() =~= rows.deep_view());
            }
            if rows.len() == 0 {
                return Err(PriceError::NoRows);
            }
            return Ok(PricingTable { rows });
        }
        let cols = split_columns(line.as_str());
        if cols.len() >= 5 {
            match parse_row(&cols) {
                Err(e) => {
                    return Err(e);
                },
                Ok(row) => {
                    let ghost old_rows = rows.deep_view();
                    rows.push(row);
                    proof {
                        assert(rows.deep_view() =~= old_rows.push(row.deep_view()));
                        assert forall|rest: Seq<ModelPricingModel>|
                            true implies old_rows + (seq![row.deep_view()] + rest)
                            =~= rows.deep_view() + rest by {}
                    }
                },
            }
        }
        i += 1;
    }
    proof {
        assert(spec_parse_rows(lv, n as int, model_name.deep_view()) == Ok::<Seq<ModelPricingModel>, PriceError>(
            Seq::<ModelPricingModel>::empty(),
        ));
        assert(rows.deep_view() + Seq::<ModelPricingModel>::empty() =~= rows.deep_view());
    }
    if rows.len() == 0 {
        return Err(PriceError::NoRows);
    }
    Ok(PricingTable { rows })
}

} // verus!
