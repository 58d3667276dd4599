use fbar::facts::{AnnualFact, ExchangeRate, Facts};
use fbar::report_context::{Converter, RateSource, ReportContext, ResolutionError};

fn create_test_facts() -> Facts {
    Facts {
        years: vec![AnnualFact {
            year: 2023,
            exchange_rates: vec![
                ExchangeRate::new("EUR".to_string(), 0.85f64.to_bits()).unwrap(),
                ExchangeRate::new("CHF".to_string(), 0.90f64.to_bits()).unwrap(),
            ],
        }],
    }
}

fn create_test_fact_extensions() -> Facts {
    Facts {
        years: vec![AnnualFact {
            year: 2023,
            exchange_rates: vec![
                ExchangeRate::new("EUR".to_string(), 0.80f64.to_bits()).unwrap(),
                // CHF is not present in the extensions to test that the IRS rates are used
            ],
        }],
    }
}

// The arithmetic on the resolved rate, which the library leaves to its caller.
fn round2(value: f64) -> f64 {
    (value * 100.0).round() / 100.0
}

fn convert_to_usd(
    context: &ReportContext,
    year: i32,
    currency: &str,
    amount: f64,
) -> Result<f64, ResolutionError> {
    let found = context.find_exchange_rate(year, currency)?;
    Ok(round2(amount / f64::from_bits(found.exchange_rate().rate_bits)))
}

fn convert_from_usd(
    context: &ReportContext,
    year: i32,
    currency: &str,
    amount: f64,
) -> Result<f64, ResolutionError> {
    let found = context.find_exchange_rate(year, currency)?;
    Ok(round2(amount * f64::from_bits(found.exchange_rate().rate_bits)))
}

#[test]
fn test_conversion() {
    let facts = create_test_facts();
    let extensions = create_test_fact_extensions();
    let context = ReportContext::new(facts, Some(extensions));

    // Test EUR conversion
    assert_eq!(convert_to_usd(&context, 2023, "EUR", 85.0).unwrap(), 106.25);
    assert_eq!(convert_from_usd(&context, 2023, "EUR", 100.0).unwrap(), 80.0);

    // Test CHF conversion
    assert_eq!(convert_to_usd(&context, 2023, "CHF", 90.0).unwrap(), 100.0);
    assert_eq!(convert_from_usd(&context, 2023, "CHF", 100.0).unwrap(), 90.0);
}

#[test]
fn test_invalid_currency() {
    let facts = create_test_facts();
    let extensions = create_test_fact_extensions();
    let context = ReportContext::new(facts, Some(extensions));

    let result = convert_to_usd(&context, 2023, "INVALID", 100.0);
    assert!(result.is_err());
    assert!(result.unwrap_err().message().contains("No exchange rate found"));
}

#[test]
fn test_invalid_year() {
    let facts = create_test_facts();
    let extensions = create_test_facts();
    let context = ReportContext::new(facts, Some(extensions));

    let result = convert_to_usd(&context, 1999, "EUR", 100.0);
    assert!(result.is_err());
    assert!(result.unwrap_err().message().contains("No exchange rate found"));
}

#[test]
fn test_rate_source() {
    let facts = create_test_facts();
    let context = ReportContext::new(facts.clone(), None);

    // Test that IRS rates come from IRS source
    let rate = context.find_exchange_rate(2023, "EUR").unwrap();
    assert_eq!(rate.source(), &RateSource::IrsProvided);

    // Test that user rates come from user source
    let user_facts = create_test_facts();
    let context = ReportContext::new(facts, Some(user_facts));
    let rate = context.find_exchange_rate(2023, "EUR").unwrap();
    assert_eq!(rate.source(), &RateSource::UserProvided);
}

#[test]
fn the_reference_rate_is_used_without_overrides() {
    let context = ReportContext::new(create_test_facts(), None);
    let found = context.find_exchange_rate(2023, "EUR").unwrap();
    assert_eq!(found.source(), &RateSource::IrsProvided);
    assert_eq!(f64::from_bits(found.exchange_rate().rate_bits), 0.85);
    assert_eq!(found.exchange_rate().currency_code, "eur");
}

#[test]
fn an_override_wins_with_its_own_value() {
    let context = ReportContext::new(create_test_facts(), Some(create_test_fact_extensions()));
    let found = context.find_exchange_rate(2023, "EUR").unwrap();
    assert_eq!(found.source(), &RateSource::UserProvided);
    assert_eq!(f64::from_bits(found.exchange_rate().rate_bits), 0.80);
}

#[test]
fn a_rate_that_the_overrides_lack_falls_through_to_the_reference() {
    let context = ReportContext::new(create_test_facts(), Some(create_test_fact_extensions()));
    let found = context.find_exchange_rate(2023, "CHF").unwrap();
    assert_eq!(found.source(), &RateSource::IrsProvided);
    assert_eq!(f64::from_bits(found.exchange_rate().rate_bits), 0.90);
    assert_eq!(found.exchange_rate().currency_code, "chf");
}

#[test]
fn overrides_for_another_year_do_not_count() {
    let overrides = Facts {
        years: vec![AnnualFact {
            year: 2022,
            exchange_rates: vec![ExchangeRate::new("EUR".to_string(), 0.5f64.to_bits()).unwrap()],
        }],
    };
    let context = ReportContext::new(create_test_facts(), Some(overrides));
    let found = context.find_exchange_rate(2023, "eur").unwrap();
    assert_eq!(found.source(), &RateSource::IrsProvided);
    assert_eq!(f64::from_bits(found.exchange_rate().rate_bits), 0.85);
    let found = context.find_exchange_rate(2022, "eur").unwrap();
    assert_eq!(found.source(), &RateSource::UserProvided);
    assert_eq!(f64::from_bits(found.exchange_rate().rate_bits), 0.5);
}

#[test]
fn the_failure_names_the_code_as_written_and_the_year() {
    let context = ReportContext::new(create_test_facts(), Some(create_test_fact_extensions()));
    let err = context.find_exchange_rate(2023, "InVaLiD").unwrap_err();
    assert_eq!(err.currency_code, "InVaLiD");
    assert_eq!(err.year, 2023);
    assert_eq!(err.message(), "No exchange rate found for InVaLiD in year 2023");

    let err = context.find_exchange_rate(1999, "EUR").unwrap_err();
    assert_eq!(err.currency_code, "EUR");
    assert_eq!(err.year, 1999);
    assert_eq!(err.message(), "No exchange rate found for EUR in year 1999");
}

#[test]
fn the_message_writes_any_year() {
    let message = |year: i32| ResolutionError { currency_code: "XYZ".to_string(), year }.message();
    assert_eq!(message(0), "No exchange rate found for XYZ in year 0");
    assert_eq!(message(7), "No exchange rate found for XYZ in year 7");
    assert_eq!(message(10), "No exchange rate found for XYZ in year 10");
    assert_eq!(message(-1), "No exchange rate found for XYZ in year -1");
    assert_eq!(message(-2023), "No exchange rate found for XYZ in year -2023");
    assert_eq!(message(100200), "No exchange rate found for XYZ in year 100200");
    assert_eq!(message(i32::MAX), "No exchange rate found for XYZ in year 2147483647");
    assert_eq!(message(i32::MIN), "No exchange rate found for XYZ in year -2147483648");
    for year in [-1000, -99, -10, -9, 9, 99, 101, 1999, 2024, 65536] {
        assert_eq!(message(year), format!("No exchange rate found for XYZ in year {}", year));
    }
}

#[test]
fn resolve_takes_the_code_as_written() {
    let context = ReportContext::new(create_test_facts(), Some(create_test_fact_extensions()));
    assert!(context.resolve(2023, "eur").is_some());
    assert!(context.resolve(2023, "EUR").is_none());
    let found = context.resolve(2023, "chf").unwrap();
    assert_eq!(found.source(), &RateSource::IrsProvided);
    assert!(context.resolve(2024, "chf").is_none());
}

#[test]
fn a_converter_keeps_rate_and_source() {
    let rate = ExchangeRate::new("EUR".to_string(), 0.85f64.to_bits()).unwrap();
    let converter = Converter::new(rate, RateSource::UserProvided);
    assert_eq!(converter.source(), &RateSource::UserProvided);
    assert_eq!(converter.exchange_rate().currency_code, "eur");
    assert_eq!(converter.exchange_rate().rate_bits, 0.85f64.to_bits());
}

#[test]
fn conversions_round_trip_within_a_cent() {
    let context = ReportContext::new(create_test_facts(), None);
    assert_eq!(convert_from_usd(&context, 2023, "EUR", 100.0).unwrap(), 85.0);
    assert_eq!(convert_to_usd(&context, 2023, "EUR", 85.0).unwrap(), 100.0);
}
