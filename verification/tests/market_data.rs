use rupee::calendar::Date;
use rupee::data_sources::mf_api::{
    fund_details_from, price_history, FundDataError, MFAPIListing, MFAPIMeta, MFAPIResult, PricePoint,
};
use rupee::data_sources::nse_bhav::{
    bhav_response, bhav_to_listings, nse_reports_url, parse_csv, unzip_file, BhavError, BhavRecord,
    BhavResponse, Bhavcopy,
};
use std::io::Write;

fn ymd(y: i32, m: u32, d: u32) -> Date {
    Date::from_ymd_opt(y, m, d).unwrap()
}

fn listing(date: &str, nav: &str) -> MFAPIListing {
    MFAPIListing { date: date.to_string(), nav: nav.to_string() }
}

fn fund(data: Vec<MFAPIListing>) -> MFAPIResult {
    MFAPIResult {
        meta: MFAPIMeta { fund_house: "House".to_string(), scheme_name: "Scheme".to_string() },
        data,
    }
}

#[test]
fn fund_prices_are_sorted_with_one_per_day() {
    let result = fund(vec![
        listing("03-01-2024", "12.50"),
        listing("01-01-2024", "10.00"),
        listing("02-01-2024", "11.25"),
        listing("01-01-2024", "99.99"),
    ]);
    let details = fund_details_from(result).unwrap();
    assert_eq!(details.fund_house, "House");
    assert_eq!(details.scheme_name, "Scheme");
    assert_eq!(
        details.prices,
        vec![
            PricePoint { date: ymd(2024, 1, 1), amount: 1000 },
            PricePoint { date: ymd(2024, 1, 2), amount: 1125 },
            PricePoint { date: ymd(2024, 1, 3), amount: 1250 },
        ]
    );
}

#[test]
fn fund_nav_fractions_of_a_paisa_are_dropped() {
    let details = fund_details_from(fund(vec![listing("01-01-2024", "10.1299")])).unwrap();
    assert_eq!(details.prices[0].amount, 1012);
}

#[test]
fn fund_listings_that_do_not_read_fail_the_history() {
    assert_eq!(
        fund_details_from(fund(vec![listing("2024-01-01", "10.00")])).err(),
        Some(FundDataError::InvalidDate("input contains invalid characters".to_string()))
    );
    assert_eq!(
        fund_details_from(fund(vec![listing("01-01-2024", "ten")])).err(),
        Some(FundDataError::InvalidAmount("Amount not parsable".to_string()))
    );
    // The first listing that fails decides the error.
    assert_eq!(
        fund_details_from(fund(vec![listing("01-01-2024", "x"), listing("bad", "1")])).err(),
        Some(FundDataError::InvalidAmount("Amount not parsable".to_string()))
    );
    let e = fund_details_from(fund(vec![listing("01-01-2024", "ten")])).err().unwrap();
    assert_eq!(e.message(), "Amount not parsable");
    assert!(fund_details_from(fund(vec![])).unwrap().prices.is_empty());
}

#[test]
fn price_history_keeps_the_first_price_of_a_day() {
    let d = ymd(2024, 5, 1);
    let points = vec![
        PricePoint { date: d, amount: 5 },
        PricePoint { date: d, amount: 6 },
        PricePoint { date: ymd(2024, 4, 1), amount: 7 },
    ];
    assert_eq!(
        price_history(&points),
        vec![PricePoint { date: ymd(2024, 4, 1), amount: 7 }, PricePoint { date: d, amount: 5 }]
    );
}

fn zip_of(files: &[(&str, &[u8])]) -> Vec<u8> {
    let mut writer = zip::ZipWriter::new(std::io::Cursor::new(Vec::new()));
    let options = zip::write::SimpleFileOptions::default()
        .compression_method(zip::CompressionMethod::Stored);
    for (name, contents) in files {
        writer.start_file(*name, options).unwrap();
        writer.write_all(contents).unwrap();
    }
    writer.finish().unwrap().into_inner()
}

#[test]
fn unzip_reads_the_first_file() {
    let archive = zip_of(&[("first.csv", b"a,b\n1,2\n"), ("second.csv", b"x")]);
    assert_eq!(unzip_file(&archive).unwrap(), b"a,b\n1,2\n".to_vec());
    let empty = zip_of(&[]);
    assert!(matches!(unzip_file(&empty), Err(BhavError::EmptyArchive)));
    assert!(matches!(unzip_file(b"not a zip"), Err(BhavError::Zip(_))));
}

#[test]
fn bhavcopy_keeps_equity_records() {
    let csv = b"ISIN , TckrSymb,SctySrs,ClsPric,,Extra\n\
INE1,ABC,EQ, 100.50 ,,x\n\
INE2,DEF,BE,20,,y\n\
INE3,GHI,EQ,30\n\
INE4,JKL\n";
    let records = parse_csv(csv).unwrap();
    assert_eq!(records.len(), 2);
    assert_eq!(records[0].isin, "INE1");
    assert_eq!(records[0].ticker, "ABC");
    assert_eq!(records[0].series, "EQ");
    assert_eq!(records[0].close, "100.50");
    assert_eq!(records[1].isin, "INE3");
    assert_eq!(records[1].close, "30");
}

#[test]
fn bhavcopy_without_the_columns_has_no_records() {
    assert!(parse_csv(b"ISIN,TckrSymb,ClsPric\nINE1,ABC,1\n").unwrap().is_empty());
    // A column named twice makes every record unreadable.
    assert!(parse_csv(b"ISIN,ISIN,TckrSymb,SctySrs,ClsPric\nA,B,C,EQ,1\n").unwrap().is_empty());
    assert!(parse_csv(b"").unwrap().is_empty());
    assert!(matches!(parse_csv(b"\xff\xfe,ISIN\n"), Err(BhavError::Csv(_))));
}

#[test]
fn bhavcopy_listings_carry_the_day() {
    let bhav = Bhavcopy {
        date: ymd(2024, 1, 5),
        records: vec![
            BhavRecord { series: "EQ".into(), isin: "INE1".into(), ticker: "ABC".into(), close: "100.50".into() },
            BhavRecord { series: "EQ".into(), isin: "INE2".into(), ticker: "DEF".into(), close: "n/a".into() },
            BhavRecord { series: "EQ".into(), isin: "INE3".into(), ticker: "GHI".into(), close: "7".into() },
        ],
    };
    let listings = bhav_to_listings(bhav);
    assert_eq!(listings.len(), 2);
    assert_eq!(listings[0].date, ymd(2024, 1, 5));
    assert_eq!(listings[0].ticker, "ABC");
    assert_eq!(listings[0].amount, 10050);
    assert_eq!(listings[1].isin, "INE3");
    assert_eq!(listings[1].amount, 700);
}

#[test]
fn bhavcopy_address() {
    assert_eq!(
        nse_reports_url(ymd(2024, 1, 5)),
        "https://www.nseindia.com/api/reports?archives=[{\"category\":\"capital-market\",\
\"name\":\"CM-UDiFF Common Bhavcopy Final (zip)\",\"section\":\"equities\",\
\"type\":\"daily-reports\"}]&date=05-Jan-2024&type=equities&mode=single"
    );
}

#[test]
fn bhavcopy_answers_by_status() {
    assert_eq!(bhav_response(404), BhavResponse::Missing);
    assert_eq!(bhav_response(403), BhavResponse::Failed);
    assert_eq!(bhav_response(503), BhavResponse::Failed);
    assert_eq!(bhav_response(200), BhavResponse::Archive);
    assert_eq!(bhav_response(304), BhavResponse::Archive);
}
