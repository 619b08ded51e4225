//! The token cost estimator: an approximate token count for a piece of
//! text and the micro-dollar cost it implies under a pricing row.
//!
//! The token count comes from a fixed, general-purpose byte-pair tokenizer
//! and is an approximation of the remote model's true tokenizer; estimates
//! are advisory and never gate sending.

use vstd::prelude::*;

use crate::api::ResponseUsage;
use crate::api::TokenType;
use crate::price::ModelPricing;
use crate::price::ModelPricingModel;

verus! {

/// The token count of a text under the fixed cl100k byte-pair encoding.
/// The encoding's table and splitting rule are fixed inside the tokenizer
/// crate, so the count depends on the text alone.
pub uninterp spec fn cl100k_token_count(s: Seq<char>) -> nat;

/// Relies on tiktoken_rs::cl100k_base and CoreBPE::encode_ordinary: the
/// number of cl100k tokens of `text`, a function of the text alone.
/// `cl100k_base` only parses its own table, a fixed asset embedded in the
/// tokenizer crate, so its error paths cannot fire and a count is always
/// returned.
#[verifier::external_body]
fn count_tokens_cl100k(text: &str) -> (r: usize)
    ensures
        r as nat == cl100k_token_count(text@),
{
    let bpe = tiktoken_rs::cl100k_base().expect("the embedded cl100k table parses");
    bpe.encode_ordinary(text).len()
}

/// Approximates how many tokens `content` costs, with the fixed cl100k
/// tokenizer standing in for the model's own; an approximation good
/// enough for advisory price display. Always succeeds: the tokenizer's
/// table ships with the crate.
pub fn token_count_heuristic(content: &str) -> (r: Result<usize, String>)
    ensures
        r matches Ok(n) && n as nat == cl100k_token_count(content@),
{
    Ok(count_tokens_cl100k(content))
}

/// The rate a pricing row gives for one side of the exchange, in
/// micro-dollars per million tokens.
pub open spec fn spec_rate(p: ModelPricingModel, toktype: TokenType) -> Option<u64> {
    match toktype {
        TokenType::InputToken => p.input_cost_per_million,
        TokenType::OutputToken => p.output_cost_per_million,
    }
}

/// The cost of `tokens` tokens at `rate` micro-dollars per million
/// tokens, rounded down to whole micro-dollars.
pub open spec fn spec_cost_micros(tokens: nat, rate: u64) -> int {
    (tokens * rate) / 1000000
}

/// The estimated cost of `tokens` tokens in micro-dollars, at the row's
/// input or output rate; `None` when the table left that rate unknown.
pub fn estimate_cost(tokens: usize, toktype: TokenType, pricing: &ModelPricing) -> (r: Option<
    u128,
>)
    ensures
        (match spec_rate(pricing.deep_view(), toktype) {
            Some(rate) => r matches Some(c) && c as int == spec_cost_micros(tokens as nat, rate),
            None => r is None,
        }),
{
    let rate = match toktype {
        TokenType::InputToken => pricing.input_cost_per_million,
        TokenType::OutputToken => pricing.output_cost_per_million,
    };
    match rate {
        Some(rate) => {
            proof {
                vstd::arithmetic::mul::lemma_mul_upper_bound(
                    tokens as int,
                    u64::MAX as int,
                    rate as int,
                    u64::MAX as int,
                );
            }
            let prod: u128 = (tokens as u128) * (rate as u128);
            Some(prod / 1000000)
        },
        None => None,
    }
}

/// The micro-dollar cost of one reported usage under a pricing row: the
/// input tokens at the input rate plus the output tokens at the output
/// rate; `None` when either rate is unknown.
pub open spec fn spec_usage_cost(usage: ResponseUsage, p: ModelPricingModel) -> Option<int> {
    match (p.input_cost_per_million, p.output_cost_per_million) {
        (Some(ir), Some(or)) => Some(
            spec_cost_micros(usage.input_tokens as nat, ir) + spec_cost_micros(
                usage.output_tokens as nat,
                or,
            ),
        ),
        _ => None,
    }
}

/// The cost of one reported usage, in the sense of `spec_usage_cost`.
pub fn usage_as_cost(usage: &ResponseUsage, pricing: &ModelPricing) -> (r: Option<u128>)
    ensures
        (match spec_usage_cost(*usage, pricing.deep_view()) {
            Some(v) => r matches Some(c) && c as int == v,
            None => r is None,
        }),
{
    match (pricing.input_cost_per_million, pricing.output_cost_per_million) {
        (Some(ir), Some(or)) => {
            proof {
                vstd::arithmetic::mul::lemma_mul_upper_bound(
                    usage.input_tokens as int,
                    u32::MAX as int,
                    ir as int,
                    u64::MAX as int,
                );
                vstd::arithmetic::mul::lemma_mul_upper_bound(
                    usage.output_tokens as int,
                    u32::MAX as int,
                    or as int,
                    u64::MAX as int,
                );
            }
            let ic: u128 = ((usage.input_tokens as u128) * (ir as u128)) / 1000000;
            let oc: u128 = ((usage.output_tokens as u128) * (or as u128)) / 1000000;
            Some(ic + oc)
        },
        _ => None,
    }
}

/// The advisory price of typing `content` as the next message: the
/// heuristic token count priced at the chosen rate. Always succeeds; an
/// unknown rate gives `Ok(None)`.
pub fn get_tokens_heur_price(
    content: &str,
    toktype: TokenType,
    model_price: &ModelPricing,
) -> (r: Result<Option<u128>, String>)
    ensures
        r matches Ok(c) && (match spec_rate(model_price.deep_view(), toktype) {
            Some(rate) => c matches Some(v) && v as int == spec_cost_micros(
                cl100k_token_count(content@),
                rate,
            ),
            None => c is None,
        }),
{
    let tokens = match token_count_heuristic(content) {
        Ok(t) => t,
        Err(e) => {
            return Err(e);
        },
    };
    Ok(estimate_cost(tokens, toktype, model_price))
}

/// For a fixed known rate, the cost estimate never decreases as the
/// token count grows: pricing is monotone in the amount of text as the
/// tokenizer measures it.
pub proof fn lemma_estimate_cost_monotone(t1: nat, t2: nat, rate: u64)
    requires
        t1 <= t2,
    ensures
        spec_cost_micros(t1, rate) <= spec_cost_micros(t2, rate),
{
    vstd::arithmetic::mul::lemma_mul_inequality(t1 as int, t2 as int, rate as int);
    vstd::arithmetic::div_mod::lemma_div_is_ordered(
        t1 as int * rate as int,
        t2 as int * rate as int,
        1000000,
    );
}

} // verus!
