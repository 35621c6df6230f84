use price_scraper::client::catalog_url;
use price_scraper::client::login_url;
use price_scraper::client::price_report_body;
use price_scraper::client::prices_url;
use price_scraper::client::provider_url;
use price_scraper::client::run_report_body;
use price_scraper::client::runs_url;
use price_scraper::orchestrator::RunRecord;
use price_scraper::price::Price;

#[test]
fn operation_urls() {
    assert_eq!(login_url("http://api"), "http://api/auth/login");
    assert_eq!(catalog_url("http://api"), "http://api/scraping_runs/providers");
    assert_eq!(provider_url("http://api", 42), "http://api/providers/42");
    assert_eq!(prices_url("http://api", 42), "http://api/providers/42/prices");
    assert_eq!(runs_url("http://api"), "http://api/scraping_runs");
}

#[test]
fn price_report_body_holds_the_dot_decimal() {
    let p = Price { negative: false, mantissa: 123456, scale: 2 };
    assert_eq!(price_report_body(&p), "{\"price\":1234.56}");
    let q = Price { negative: false, mantissa: 199, scale: 0 };
    assert_eq!(price_report_body(&q), "{\"price\":199}");
}

#[test]
fn run_report_body_renders_both_instants() {
    let record = RunRecord { start_time: 0, end_time: 1000 };
    assert_eq!(
        run_report_body(&record),
        "{\"start_time\":\"1970-01-01T00:00:00+00:00\",\"end_time\":\"1970-01-01T00:00:01+00:00\"}"
    );
}
