//! The pricing table parser and the token cost estimator.

use clauchat::api::ResponseUsage;
use clauchat::api::TokenType;
use clauchat::estimate::estimate_cost;
use clauchat::estimate::get_tokens_heur_price;
use clauchat::estimate::token_count_heuristic;
use clauchat::estimate::usage_as_cost;
use clauchat::price::parse_cost;
use clauchat::price::parse_pricing_table;
use clauchat::price::parse_token_limit;
use clauchat::price::ModelPricing;
use clauchat::price::PriceError;

fn sample_pricing() -> ModelPricing {
    ModelPricing {
        model_name: "acme-large".to_string(),
        input_cost_per_million: Some(3_000_000),
        output_cost_per_million: Some(15_000_000),
        max_prompt_tokens: 200_000,
        max_output_tokens: 8_192,
    }
}

#[test]
fn token_limits_parse_with_suffixes() {
    assert_eq!(parse_token_limit("200k"), Ok(200_000));
    assert_eq!(parse_token_limit("1M"), Ok(1_000_000));
    assert_eq!(parse_token_limit("unlimited"), Ok(usize::MAX));
}

#[test]
fn token_limits_parse_plain_and_fractional() {
    assert_eq!(parse_token_limit("8,192"), Ok(8_192));
    assert_eq!(parse_token_limit("  128K "), Ok(128_000));
    assert_eq!(parse_token_limit("0.5M"), Ok(500_000));
    assert_eq!(parse_token_limit("1.5k"), Ok(1_500));
    assert_eq!(parse_token_limit("n/a"), Ok(usize::MAX));
    assert_eq!(parse_token_limit("--"), Ok(usize::MAX));
}

#[test]
fn repeated_suffix_letters_are_stripped_as_a_run() {
    assert_eq!(parse_token_limit("5kk"), Ok(5_000));
}

#[test]
fn bad_token_limits_are_errors() {
    assert_eq!(parse_token_limit("lots"), Err(PriceError::BadLimit));
    assert_eq!(parse_token_limit("1.5"), Err(PriceError::BadLimit));
    assert_eq!(parse_token_limit("12e3"), Err(PriceError::BadLimit));
}

#[test]
fn costs_parse_to_micro_dollars() {
    assert_eq!(parse_cost("$15.00"), Ok(Some(15_000_000)));
    assert_eq!(parse_cost("3.5"), Ok(Some(3_500_000)));
    assert_eq!(parse_cost("$0.25"), Ok(Some(250_000)));
    assert_eq!(parse_cost("0.000001"), Ok(Some(1)));
    assert_eq!(parse_cost("nan"), Ok(None));
    assert_eq!(parse_cost("-"), Ok(None));
}

#[test]
fn bad_costs_are_errors() {
    assert_eq!(parse_cost("free"), Err(PriceError::BadCost));
    assert_eq!(parse_cost("1.2.3"), Err(PriceError::BadCost));
    assert_eq!(parse_cost("."), Err(PriceError::BadCost));
}

fn sample_table() -> String {
    let mut s = String::new();
    s.push_str("Some introduction.\n");
    s.push_str("| Model Name | Input | Output | Max Prompt | Max Output |\n");
    s.push_str("|---|---|---|---|---|\n");
    s.push_str("| gpt-x | $1.50 | $2.00 | 200k | 8,192 |\n");
    s.push_str("| acme-large | $3.00 | $15.00 | 1M | unlimited |\n");
    s.push_str("\n");
    s.push_str("A closing remark.\n");
    s
}

#[test]
fn pricing_table_rows_parse() {
    let table = parse_pricing_table(&sample_table(), None).expect("table parses");
    assert_eq!(table.row_count(), 2);
    let gpt = table.get("gpt-x").expect("first row is kept");
    assert_eq!(gpt.input_cost_per_million, Some(1_500_000));
    assert_eq!(gpt.output_cost_per_million, Some(2_000_000));
    assert_eq!(gpt.max_prompt_tokens, 200_000);
    assert_eq!(gpt.max_output_tokens, 8_192);
    let acme = table.get("acme-large").expect("second row is kept");
    assert_eq!(acme.input_cost_per_million, Some(3_000_000));
    assert_eq!(acme.output_cost_per_million, Some(15_000_000));
    assert_eq!(acme.max_prompt_tokens, 1_000_000);
    assert_eq!(acme.max_output_tokens, usize::MAX);
    assert!(table.get("nope").is_none());
}

#[test]
fn pricing_table_filter_keeps_matching_rows() {
    let table = parse_pricing_table(&sample_table(), Some("acme")).expect("filtered parse");
    assert_eq!(table.row_count(), 1);
    assert!(table.get("acme-large").is_some());
    assert!(table.get("gpt-x").is_none());
}

#[test]
fn pricing_table_without_header_is_an_error() {
    assert_eq!(
        parse_pricing_table("nothing tabular here\n", None).err(),
        Some(PriceError::HeaderNotFound)
    );
}

#[test]
fn pricing_table_without_rows_is_an_error() {
    let doc = "| Model Name |\n|---|\nno rows follow\n";
    assert_eq!(parse_pricing_table(doc, None).err(), Some(PriceError::NoRows));
}

#[test]
fn pricing_table_bad_cell_fails_the_table() {
    let doc = "| Model Name | I | O | P | C |\n|---|---|---|---|---|\n| m | oops | $1 | 1k | 1k |\n";
    assert_eq!(parse_pricing_table(doc, None).err(), Some(PriceError::BadCost));
}

#[test]
fn pricing_table_duplicate_name_last_wins() {
    let doc = "| Model Name | I | O | P | C |\n|---|---|---|---|---|\n\
               | m | $1 | $1 | 1k | 1k |\n| m | $2 | $2 | 2k | 2k |\n";
    let table = parse_pricing_table(doc, None).expect("parses");
    assert_eq!(table.row_count(), 2);
    let m = table.get("m").expect("m is present");
    assert_eq!(m.input_cost_per_million, Some(2_000_000));
    assert_eq!(m.max_prompt_tokens, 2_000);
}

#[test]
fn estimate_cost_is_exact_in_micro_dollars() {
    let p = sample_pricing();
    // one million input tokens cost the full input rate
    assert_eq!(estimate_cost(1_000_000, TokenType::InputToken, &p), Some(3_000_000));
    assert_eq!(estimate_cost(1_000, TokenType::InputToken, &p), Some(3_000));
    assert_eq!(estimate_cost(1_000, TokenType::OutputToken, &p), Some(15_000));
    assert_eq!(estimate_cost(0, TokenType::InputToken, &p), Some(0));
}

#[test]
fn estimate_cost_without_a_rate_is_absent() {
    let mut p = sample_pricing();
    p.output_cost_per_million = None;
    assert_eq!(estimate_cost(1_000, TokenType::OutputToken, &p), None);
    assert!(estimate_cost(1_000, TokenType::InputToken, &p).is_some());
}

#[test]
fn estimate_cost_grows_with_token_count() {
    let p = sample_pricing();
    let small = estimate_cost(10, TokenType::InputToken, &p).unwrap();
    let large = estimate_cost(10_000, TokenType::InputToken, &p).unwrap();
    assert!(small <= large);
}

#[test]
fn usage_cost_sums_both_sides() {
    let p = sample_pricing();
    let usage = ResponseUsage { input_tokens: 500_000, output_tokens: 100_000 };
    // half the input rate plus a tenth of the output rate
    assert_eq!(usage_as_cost(&usage, &p), Some(1_500_000 + 1_500_000));
}

#[test]
fn token_heuristic_counts_real_text() {
    let n = token_count_heuristic("Hello world, how are you today?").expect("tokenizer loads");
    assert!(n > 0);
    assert!(n < 32);
    let empty = token_count_heuristic("").expect("tokenizer loads");
    assert_eq!(empty, 0);
}

#[test]
fn heuristic_price_uses_the_chosen_rate() {
    let p = sample_pricing();
    let cost = get_tokens_heur_price("Hello world", TokenType::InputToken, &p)
        .expect("tokenizer loads")
        .expect("rate is known");
    let tokens = token_count_heuristic("Hello world").unwrap() as u128;
    assert_eq!(cost, tokens * 3_000_000 / 1_000_000);
}
