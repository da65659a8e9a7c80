//! Requests to the energy provider: where each one goes, how it is
//! authorised, and which answers count as success.

use crate::time::{in_calendar, Timestamp, SECONDS_PER_DAY};
use vstd::prelude::*;
use vstd::string::{StringExecFns, StringSliceAdditionalSpecFns};

verus! {

/// The one response status that the provider's answers are accepted with.
pub const STATUS_OK: u16 = 200;

/// How many calendar days of prices are asked for, counted back from now.
pub const PRICING_WINDOW_DAYS: u64 = 365;

/// Whether a response with this status carries the data that was asked for.
pub fn is_success(status: u16) -> (ok: bool)
    ensures
        ok == (status == STATUS_OK),
{
    status == STATUS_OK
}

/// A meter whose consumption can be asked for: its serial number, then the
/// number of the meter point it stands at.
#[derive(Debug, PartialEq, Eq)]
pub enum MeterInfo {
    /// An electricity meter: serial number and MPAN.
    Electricity(String, String),
    /// A gas meter: serial number and MPRN.
    Gas(String, String),
}

/// Where the details of the account `account_number` are found.
pub open spec fn account_uri_text(account_number: Seq<char>) -> Seq<char> {
    "https://api.octopus.energy/v1/accounts/"@ + account_number
}

/// Where the consumption recorded by a meter is found, asked for in pages of
/// 25000 readings.
pub open spec fn consumption_uri_text(meter_info: MeterInfo) -> Seq<char> {
    match meter_info {
        MeterInfo::Electricity(serial_number, mpan) => {
            "https://api.octopus.energy/v1/electricity-meter-points/"@ + mpan@ + "/meters/"@
                + serial_number@ + "/consumption?page_size=25000"@
        },
        MeterInfo::Gas(serial_number, mprn) => {
            "https://api.octopus.energy/v1/gas-meter-points/"@ + mprn@ + "/meters/"@
                + serial_number@ + "/consumption?page_size=25000"@
        },
    }
}

/// Where the list of products is found.
pub open spec fn products_uri_text() -> Seq<char> {
    "https://api.octopus.energy/v1/products"@
}

/// Where a tariff's standing charges since `start_from` are found.
pub open spec fn standing_charges_uri_text(
    product_code: Seq<char>,
    tariff_code: Seq<char>,
    start_from: Seq<char>,
) -> Seq<char> {
    "https://api.octopus.energy/v1/products/"@ + product_code + "/electricity-tariffs/"@
        + tariff_code + "/standing-charges?start_from="@ + start_from
}

/// Where a tariff's standard unit rates since `start_from` are found, asked
/// for in pages of 1500 rates.
pub open spec fn standard_unit_rates_uri_text(
    product_code: Seq<char>,
    tariff_code: Seq<char>,
    start_from: Seq<char>,
) -> Seq<char> {
    "https://api.octopus.energy/v1/products/"@ + product_code + "/electricity-tariffs/"@
        + tariff_code + "/standard-unit-rates?start_from="@ + start_from + "&page_size=1500"@
}

/// The address of the details of the account `account_number`.
pub fn account_uri(account_number: &str) -> (uri: String)
    ensures
        uri@ == account_uri_text(account_number@),
{
    let mut uri: String = String::from_str("https://api.octopus.energy/v1/accounts/");
    uri.append(account_number);
    uri
}

/// The address of the consumption recorded by the meter `meter_info`.
pub fn consumption_uri(meter_info: &MeterInfo) -> (uri: String)
    ensures
        uri@ == consumption_uri_text(*meter_info),
{
    match meter_info {
        MeterInfo::Electricity(serial_number, mpan) => {
            let mut uri: String = String::from_str(
                "https://api.octopus.energy/v1/electricity-meter-points/",
            );
            uri.append(mpan.as_str());
            uri.append("/meters/");
            uri.append(serial_number.as_str());
            uri.append("/consumption?page_size=25000");
            uri
        },
        MeterInfo::Gas(serial_number, mprn) => {
            let mut uri: String = String::from_str(
                "https://api.octopus.energy/v1/gas-meter-points/",
            );
            uri.append(mprn.as_str());
            uri.append("/meters/");
            uri.append(serial_number.as_str());
            uri.append("/consumption?page_size=25000");
            uri
        },
    }
}

/// The address of the list of products.
pub fn products_uri() -> (uri: String)
    ensures
        uri@ == products_uri_text(),
{
    String::from_str("https://api.octopus.energy/v1/products")
}

/// The address of a tariff's standing charges since `start_from`.
pub fn standing_charges_uri(product_code: &str, tariff_code: &str, start_from: &str) -> (uri:
    String)
    ensures
        uri@ == standing_charges_uri_text(product_code@, tariff_code@, start_from@),
{
    let mut uri: String = String::from_str("https://api.octopus.energy/v1/products/");
    uri.append(product_code);
    uri.append("/electricity-tariffs/");
    uri.append(tariff_code);
    uri.append("/standing-charges?start_from=");
    uri.append(start_from);
    uri
}

/// The address of a tariff's standard unit rates since `start_from`.
pub fn standard_unit_rates_uri(product_code: &str, tariff_code: &str, start_from: &str) -> (uri:
    String)
    ensures
        uri@ == standard_unit_rates_uri_text(product_code@, tariff_code@, start_from@),
{
    let mut uri: String = String::from_str("https://api.octopus.energy/v1/products/");
    uri.append(product_code);
    uri.append("/electricity-tariffs/");
    uri.append(tariff_code);
    uri.append("/standard-unit-rates?start_from=");
    uri.append(start_from);
    uri.append("&page_size=1500");
    uri
}

/// The instant from which prices are asked for: the same time of day
/// `PRICING_WINDOW_DAYS` calendar days before `now`, or `None` when that lies
/// before the start of the supported calendar.
pub fn pricing_window_start(now: Timestamp) -> (r: Option<Timestamp>)
    ensures
        match r {
            Some(start) => start@ == now@ - PRICING_WINDOW_DAYS * SECONDS_PER_DAY,
            None => !in_calendar(now@ - PRICING_WINDOW_DAYS * SECONDS_PER_DAY),
        },
{
    now.days_before(PRICING_WINDOW_DAYS)
}

/// The text that the base64 crate's standard engine, with padding, encodes
/// `bytes` to.
pub uninterp spec fn base64_standard(bytes: Seq<u8>) -> Seq<char>;

/// Whether `len` bytes can be encoded in base64: the encoded length, four
/// characters for every three bytes and four more, must fit the machine's
/// word.
pub open spec fn encodable_len(len: int) -> bool {
    (len / 3) * 4 + 4 <= usize::MAX
}

/// `bytes` encoded by `Engine::encode` of the base64 crate's
/// `BASE64_STANDARD`.
///
/// Trusted: the text is a function of the bytes alone. The crate panics when
/// the encoded length does not fit `usize`, which the precondition rules
/// out.
#[verifier::external_body]
fn encode_base64(bytes: &[u8]) -> (text: String)
    requires
        encodable_len(bytes@.len() as int),
    ensures
        text@ == base64_standard(bytes@),
{
    base64::Engine::encode(&base64::prelude::BASE64_STANDARD, bytes)
}

/// The value of the `Authorization` header for a key already encoded in
/// base64.
pub open spec fn authorization_text(encoded_key: Seq<char>) -> Seq<char> {
    "Basic "@ + encoded_key + ":"@
}

/// The value of the `Authorization` header for the encoded key
/// `encoded_key`.
pub fn authorization_for_encoded(encoded_key: &str) -> (header: String)
    ensures
        header@ == authorization_text(encoded_key@),
{
    let mut header: String = String::from_str("Basic ");
    header.append(encoded_key);
    header.append(":");
    header
}

/// The value of the `Authorization` header that presents `api_key`: the key
/// in base64 between `Basic ` and a colon. `None` when the key is too long
/// to encode.
pub fn authorization_header(api_key: &str) -> (r: Option<String>)
    ensures
        match r {
            Some(header) => {
                &&& encodable_len(api_key.spec_bytes().len() as int)
                &&& header@ == authorization_text(base64_standard(api_key.spec_bytes()))
            },
            None => !encodable_len(api_key.spec_bytes().len() as int),
        },
{
    let bytes: &[u8] = api_key.as_bytes();
    if bytes.len() / 3 > (usize::MAX - 4) / 4 {
        return None;
    }
    let encoded: String = encode_base64(bytes);
    Some(authorization_for_encoded(encoded.as_str()))
}

/// The regular expression that finds a product code inside a tariff code:
/// letters, then three groups of two digits, all between hyphens.
pub open spec fn product_code_pattern() -> Seq<char> {
    "-([A-Za-z]+-\\d{2}-\\d{2}-\\d{2})-"@
}

/// What the regex crate captures in `text` as the first group of the
/// leftmost match of `pattern`: nothing when the pattern is not a regular
/// expression, when nothing in the text matches it, or when the group took
/// no part in the match.
pub uninterp spec fn first_capture(pattern: Seq<char>, text: Seq<char>) -> Option<Seq<char>>;

/// The view of a text that may be absent.
pub open spec fn text_view(text: Option<String>) -> Option<Seq<char>> {
    match text {
        Some(t) => Some(t@),
        None => None,
    }
}

/// The first capture group of the leftmost match of `pattern` in `text`, by
/// the regex crate's `Regex::new`, `Regex::captures` and `Captures::get`.
///
/// Trusted: the capture is a function of the pattern and the text alone.
#[verifier::external_body]
fn capture_first_group(pattern: &str, text: &str) -> (r: Option<String>)
    ensures
        text_view(r) == first_capture(pattern@, text@),
{
    let expression = regex::Regex::new(pattern).ok()?;
    let captures = expression.captures(text)?;
    Some(captures.get(1)?.as_str().to_owned())
}

/// The product code that the tariff code `tariff_code` holds, or `None` when
/// the tariff code does not follow the provider's convention.
pub fn product_code(tariff_code: &str) -> (r: Option<String>)
    ensures
        text_view(r) == first_capture(product_code_pattern(), tariff_code@),
{
    capture_first_group("-([A-Za-z]+-\\d{2}-\\d{2}-\\d{2})-", tariff_code)
}

} // verus!
