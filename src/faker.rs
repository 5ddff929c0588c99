use vstd::prelude::*;
use vstd::string::*;
use fake::Fake;
use fake::faker;
use rand::Rng;
use crate::json::{JsonValue, int_field, int_setting};
use crate::params::same_text;

verus! {

/// The kinds of synthetic value that a type tag selects.
#[derive(PartialEq, Eq, Structural, Clone, Copy, Debug)]
pub enum FakeKind {
    Uuid,
    FullName,
    FirstName,
    LastName,
    Email,
    Username,
    Phone,
    Address,
    City,
    Country,
    Zipcode,
    Integer,
    Float,
    Boolean,
    DateTime,
    Word,
    Sentence,
    Paragraph,
    Company,
    JobTitle,
    Url,
    Ipv4,
    Color,
}

/// The kind that a lower-case tag names; an unknown tag falls back to a word.
pub open spec fn kind_of(t: Seq<char>) -> FakeKind {
    if t == "uuid"@ { FakeKind::Uuid }
    else if t == "name"@ || t == "fullname"@ || t == "name.fullname"@ { FakeKind::FullName }
    else if t == "firstname"@ || t == "name.firstname"@ { FakeKind::FirstName }
    else if t == "lastname"@ || t == "name.lastname"@ { FakeKind::LastName }
    else if t == "email"@ || t == "internet.email"@ { FakeKind::Email }
    else if t == "username"@ || t == "internet.username"@ { FakeKind::Username }
    else if t == "phone"@ || t == "phonenumber"@ { FakeKind::Phone }
    else if t == "address"@ || t == "address.full"@ { FakeKind::Address }
    else if t == "city"@ || t == "address.city"@ { FakeKind::City }
    else if t == "country"@ || t == "address.country"@ { FakeKind::Country }
    else if t == "zipcode"@ || t == "address.zipcode"@ { FakeKind::Zipcode }
    else if t == "number"@ || t == "int"@ || t == "integer"@ { FakeKind::Integer }
    else if t == "float"@ || t == "decimal"@ { FakeKind::Float }
    else if t == "bool"@ || t == "boolean"@ { FakeKind::Boolean }
    else if t == "datetime"@ || t == "date"@ || t == "timestamp"@ { FakeKind::DateTime }
    else if t == "sentence"@ || t == "lorem.sentence"@ { FakeKind::Sentence }
    else if t == "paragraph"@ || t == "lorem.paragraph"@ { FakeKind::Paragraph }
    else if t == "company"@ || t == "company.name"@ { FakeKind::Company }
    else if t == "jobtitle"@ || t == "job.title"@ { FakeKind::JobTitle }
    else if t == "url"@ || t == "internet.url"@ { FakeKind::Url }
    else if t == "ipv4"@ || t == "ip"@ { FakeKind::Ipv4 }
    else if t == "color"@ || t == "color.hex"@ { FakeKind::Color }
    else { FakeKind::Word }
}

pub uninterp spec fn lower_of(s: Seq<char>) -> Seq<char>;

/// Relies on `str::to_lowercase`: the result depends on the characters alone.
#[verifier::external_body]
fn lowercase(s: &str) -> (r: String)
    ensures
        r@ == lower_of(s@),
{
    s.to_lowercase()
}

pub open spec fn is_hex_digit(c: char) -> bool {
    ('0' <= c && c <= '9') || ('a' <= c && c <= 'f')
}

/// The hyphenated lower-case form of a version-4 UUID.
pub open spec fn is_uuid_text(s: Seq<char>) -> bool {
    &&& s.len() == 36
    &&& forall|i: int| 0 <= i < 36 ==> if i == 8 || i == 13 || i == 18 || i == 23 {
        #[trigger] s[i] == '-'
    } else {
        is_hex_digit(s[i])
    }
    &&& s[14] == '4'
    &&& (s[19] == '8' || s[19] == '9' || s[19] == 'a' || s[19] == 'b')
}

/// Relies on `uuid::Uuid::new_v4` and its hyphenated lower-case `Display`.
#[verifier::external_body]
fn new_uuid_text() -> (r: String)
    ensures
        is_uuid_text(r@),
{
    uuid::Uuid::new_v4().to_string()
}

/// Relies on `rand::Rng::gen_range` over an inclusive range, which panics
/// when the range is empty.
#[verifier::external_body]
pub(crate) fn random_in_range(lo: i128, hi: i128) -> (r: i128)
    requires
        lo <= hi,
    ensures
        lo <= r <= hi,
{
    rand::thread_rng().gen_range(lo..=hi)
}

/// Relies on `rand::Rng::gen` for `u8`: any byte.
#[verifier::external_body]
fn random_byte() -> (r: u8) {
    rand::thread_rng().gen::<u8>()
}

/// Relies on `rand::Rng::gen` for `bool`: either value, evenly.
#[verifier::external_body]
fn random_bool() -> (r: bool) {
    rand::thread_rng().gen::<bool>()
}

/// Relies on `chrono::Utc::now` and `DateTime::to_rfc3339`.
#[verifier::external_body]
fn now_rfc3339() -> (r: String) {
    chrono::Utc::now().to_rfc3339()
}

/// Relies on `fake`'s `faker::name::en::Name`.
#[verifier::external_body]
fn fake_full_name() -> (r: String) {
    faker::name::en::Name().fake::<String>()
}

/// Relies on `fake`'s `faker::name::en::FirstName`.
#[verifier::external_body]
fn fake_first_name() -> (r: String) {
    faker::name::en::FirstName().fake::<String>()
}

/// Relies on `fake`'s `faker::name::en::LastName`.
#[verifier::external_body]
fn fake_last_name() -> (r: String) {
    faker::name::en::LastName().fake::<String>()
}

/// Relies on `fake`'s `faker::internet::en::SafeEmail`.
#[verifier::external_body]
fn fake_email() -> (r: String) {
    faker::internet::en::SafeEmail().fake::<String>()
}

/// Relies on `fake`'s `faker::internet::en::Username`.
#[verifier::external_body]
fn fake_username() -> (r: String) {
    faker::internet::en::Username().fake::<String>()
}

/// Relies on `fake`'s `faker::phone_number::en::PhoneNumber`.
#[verifier::external_body]
fn fake_phone() -> (r: String) {
    faker::phone_number::en::PhoneNumber().fake::<String>()
}

/// Relies on `fake`'s `faker::address::en::StreetName`.
#[verifier::external_body]
fn fake_street() -> (r: String) {
    faker::address::en::StreetName().fake::<String>()
}

/// Relies on `fake`'s `faker::address::en::CityName`.
#[verifier::external_body]
fn fake_city() -> (r: String) {
    faker::address::en::CityName().fake::<String>()
}

/// Relies on `fake`'s `faker::address::en::StateName`.
#[verifier::external_body]
fn fake_state() -> (r: String) {
    faker::address::en::StateName().fake::<String>()
}

/// Relies on `fake`'s `faker::address::en::CountryName`.
#[verifier::external_body]
fn fake_country() -> (r: String) {
    faker::address::en::CountryName().fake::<String>()
}

/// Relies on `fake`'s `faker::address::en::ZipCode`.
#[verifier::external_body]
fn fake_zipcode() -> (r: String) {
    faker::address::en::ZipCode().fake::<String>()
}

/// Relies on `fake`'s `faker::lorem::en::Word`.
#[verifier::external_body]
fn fake_word() -> (r: String) {
    faker::lorem::en::Word().fake::<String>()
}

/// Relies on `fake`'s `faker::lorem::en::Sentence`, its word count drawn from `3..8`.
#[verifier::external_body]
fn fake_sentence() -> (r: String) {
    faker::lorem::en::Sentence(3..8).fake::<String>()
}

/// Relies on `fake`'s `faker::lorem::en::Paragraph`, its sentence count drawn from `2..5`.
#[verifier::external_body]
fn fake_paragraph() -> (r: String) {
    faker::lorem::en::Paragraph(2..5).fake::<String>()
}

/// Relies on `fake`'s `faker::company::en::CompanyName`.
#[verifier::external_body]
fn fake_company() -> (r: String) {
    faker::company::en::CompanyName().fake::<String>()
}

/// Relies on `fake`'s `faker::job::en::Title`.
#[verifier::external_body]
fn fake_job_title() -> (r: String) {
    faker::job::en::Title().fake::<String>()
}

/// Relies on `fake`'s `faker::internet::en::DomainSuffix`.
#[verifier::external_body]
fn fake_domain_suffix() -> (r: String) {
    faker::internet::en::DomainSuffix().fake::<String>()
}

/// Relies on `fake`'s `faker::internet::en::IPv4`, as dotted text.
#[verifier::external_body]
fn fake_ipv4() -> (r: String) {
    faker::internet::en::IPv4().fake::<String>()
}

/// Whether `x` lies between the two bounds, taken in either order.
pub open spec fn in_bounds(x: int, a: int, b: int) -> bool {
    if a <= b {
        a <= x <= b
    } else {
        b <= x <= a
    }
}

pub open spec fn digit_char(d: int) -> char {
    "0123456789abcdef"@[d]
}

/// The decimal digits of `n`.
pub open spec fn decimal_text(n: nat) -> Seq<char>
    decreases n,
{
    if n < 10 {
        seq![digit_char(n as int)]
    } else {
        decimal_text(n / 10).push(digit_char((n % 10) as int))
    }
}

/// An amount of hundredths written as a decimal number with two places.
pub open spec fn hundredths_text(h: int) -> Seq<char> {
    let a = if h < 0 { -h } else { h };
    let sign = if h < 0 { "-"@ } else { Seq::<char>::empty() };
    sign + decimal_text((a / 100) as nat) + "."@ + seq![digit_char((a % 100) / 10), digit_char(a % 10)]
}

/// A colour as `#` and six lower-case hexadecimal digits.
pub open spec fn is_color_text(s: Seq<char>) -> bool {
    &&& s.len() == 7
    &&& s[0] == '#'
    &&& forall|i: int| 1 <= i < 7 ==> is_hex_digit(#[trigger] s[i])
}

/// What a generator call may return for tag `tag` and settings `cfg`.
pub open spec fn fake_ok(tag: Seq<char>, cfg: Seq<(String, JsonValue)>, r: JsonValue) -> bool {
    let lo = int_setting(cfg, "min"@, 0) as int;
    let hi = int_setting(cfg, "max"@, 100) as int;
    match kind_of(lower_of(tag)) {
        FakeKind::Uuid => r is Str && is_uuid_text(r->Str_0@),
        FakeKind::Integer => r is Number && in_bounds(r->Number_0 as int, lo, hi),
        FakeKind::Float => r is Decimal && exists|h: int|
            in_bounds(h, 100 * lo, 100 * hi) && r->Decimal_0@ == #[trigger] hundredths_text(h),
        FakeKind::Boolean => r is Bool,
        FakeKind::Color => r is Str && is_color_text(r->Str_0@),
        FakeKind::Url => r is Str && r->Str_0@.len() >= 8 && r->Str_0@.subrange(0, 8) == "https://"@,
        _ => r is Str,
    }
}

/// The kind that a lower-case type tag names.
pub fn fake_kind(t: &str) -> (r: FakeKind)
    ensures
        r == kind_of(t@),
{
    if same_text(t, "uuid") { FakeKind::Uuid }
    else if same_text(t, "name") || same_text(t, "fullname") || same_text(t, "name.fullname") { FakeKind::FullName }
    else if same_text(t, "firstname") || same_text(t, "name.firstname") { FakeKind::FirstName }
    else if same_text(t, "lastname") || same_text(t, "name.lastname") { FakeKind::LastName }
    else if same_text(t, "email") || same_text(t, "internet.email") { FakeKind::Email }
    else if same_text(t, "username") || same_text(t, "internet.username") { FakeKind::Username }
    else if same_text(t, "phone") || same_text(t, "phonenumber") { FakeKind::Phone }
    else if same_text(t, "address") || same_text(t, "address.full") { FakeKind::Address }
    else if same_text(t, "city") || same_text(t, "address.city") { FakeKind::City }
    else if same_text(t, "country") || same_text(t, "address.country") { FakeKind::Country }
    else if same_text(t, "zipcode") || same_text(t, "address.zipcode") { FakeKind::Zipcode }
    else if same_text(t, "number") || same_text(t, "int") || same_text(t, "integer") { FakeKind::Integer }
    else if same_text(t, "float") || same_text(t, "decimal") { FakeKind::Float }
    else if same_text(t, "bool") || same_text(t, "boolean") { FakeKind::Boolean }
    else if same_text(t, "datetime") || same_text(t, "date") || same_text(t, "timestamp") { FakeKind::DateTime }
    else if same_text(t, "sentence") || same_text(t, "lorem.sentence") { FakeKind::Sentence }
    else if same_text(t, "paragraph") || same_text(t, "lorem.paragraph") { FakeKind::Paragraph }
    else if same_text(t, "company") || same_text(t, "company.name") { FakeKind::Company }
    else if same_text(t, "jobtitle") || same_text(t, "job.title") { FakeKind::JobTitle }
    else if same_text(t, "url") || same_text(t, "internet.url") { FakeKind::Url }
    else if same_text(t, "ipv4") || same_text(t, "ip") { FakeKind::Ipv4 }
    else if same_text(t, "color") || same_text(t, "color.hex") { FakeKind::Color }
    else { FakeKind::Word }
}

fn push_digit(out: &mut String, d: u64)
    requires
        d < 16,
    ensures
        final(out)@ == old(out)@.push(digit_char(d as int)),
{
    let digits = "0123456789abcdef";
    proof { reveal_strlit("0123456789abcdef"); }
    let piece = digits.substring_char(d as usize, (d + 1) as usize);
    out.append(piece);
    assert(piece@ == seq![digit_char(d as int)]);
}

/// Appends the decimal digits of `n`.
pub fn push_decimal(out: &mut String, n: u64)
    ensures
        final(out)@ == old(out)@ + decimal_text(n as nat),
    decreases n,
{
    if n < 10 {
        push_digit(out, n);
    } else {
        push_decimal(out, n / 10);
        push_digit(out, n % 10);
    }
    assert(final(out)@ == old(out)@ + decimal_text(n as nat));
}

/// Writes an amount of hundredths as a decimal number with two places.
pub fn hundredths_to_text(h: i128) -> (r: String)
    requires
        -922337203685477580800 <= h <= 922337203685477580800,
    ensures
        r@ == hundredths_text(h as int),
{
    let mut out = String::new();
    let a: i128 = if h < 0 { -h } else { h };
    proof { reveal_strlit("-"); reveal_strlit("."); }
    if h < 0 {
        out.append("-");
    }
    let ghost sign = out@;
    assert(sign == (if h < 0 { "-"@ } else { Seq::<char>::empty() }));
    push_decimal(&mut out, (a / 100) as u64);
    out.append(".");
    push_digit(&mut out, ((a % 100) / 10) as u64);
    push_digit(&mut out, (a % 10) as u64);
    assert(out@ == sign + decimal_text((a / 100) as nat) + "."@ + seq![digit_char((a as int % 100) / 10), digit_char(a as int % 10)]);
    out
}

fn push_hex_byte(out: &mut String, b: u8)
    ensures
        final(out)@ == old(out)@.push(digit_char(b as int / 16)).push(digit_char(b as int % 16)),
{
    push_digit(out, (b / 16) as u64);
    push_digit(out, (b % 16) as u64);
}

/// One synthetic value for type tag `fake_type` (matched case-insensitively),
/// with numeric bounds read from `config`.
pub fn generate_fake_value(fake_type: &str, config: &Vec<(String, JsonValue)>) -> (r: JsonValue)
    ensures
        fake_ok(fake_type@, config@, r),
{
    let lower = lowercase(fake_type);
    match fake_kind(lower.as_str()) {
        FakeKind::Uuid => JsonValue::Str(new_uuid_text()),
        FakeKind::FullName => JsonValue::Str(fake_full_name()),
        FakeKind::FirstName => JsonValue::Str(fake_first_name()),
        FakeKind::LastName => JsonValue::Str(fake_last_name()),
        FakeKind::Email => JsonValue::Str(fake_email()),
        FakeKind::Username => JsonValue::Str(fake_username()),
        FakeKind::Phone => JsonValue::Str(fake_phone()),
        FakeKind::Address => {
            let mut s = fake_street();
            s.append(", ");
            let city = fake_city();
            s.append(city.as_str());
            s.append(", ");
            let state = fake_state();
            s.append(state.as_str());
            JsonValue::Str(s)
        },
        FakeKind::City => JsonValue::Str(fake_city()),
        FakeKind::Country => JsonValue::Str(fake_country()),
        FakeKind::Zipcode => JsonValue::Str(fake_zipcode()),
        FakeKind::Integer => {
            let lo = int_field(config, "min", 0) as i128;
            let hi = int_field(config, "max", 100) as i128;
            let n = if lo <= hi { random_in_range(lo, hi) } else { random_in_range(hi, lo) };
            JsonValue::Number(n as i64)
        },
        FakeKind::Float => {
            let lo = int_field(config, "min", 0) as i128 * 100;
            let hi = int_field(config, "max", 100) as i128 * 100;
            let h = if lo <= hi { random_in_range(lo, hi) } else { random_in_range(hi, lo) };
            let text = hundredths_to_text(h);
            assert(in_bounds(h as int, lo as int, hi as int) && text@ == hundredths_text(h as int));
            JsonValue::Decimal(text)
        },
        FakeKind::Boolean => JsonValue::Bool(random_bool()),
        FakeKind::DateTime => JsonValue::Str(now_rfc3339()),
        FakeKind::Word => JsonValue::Str(fake_word()),
        FakeKind::Sentence => JsonValue::Str(fake_sentence()),
        FakeKind::Paragraph => JsonValue::Str(fake_paragraph()),
        FakeKind::Company => JsonValue::Str(fake_company()),
        FakeKind::JobTitle => JsonValue::Str(fake_job_title()),
        FakeKind::Url => {
            let mut s = String::from_str("https://");
            proof { reveal_strlit("https://"); }
            let word = fake_word();
            s.append(word.as_str());
            s.append(".");
            let domain = fake_domain_suffix();
            s.append(domain.as_str());
            assert(s@.subrange(0, 8) == "https://"@);
            JsonValue::Str(s)
        },
        FakeKind::Ipv4 => JsonValue::Str(fake_ipv4()),
        FakeKind::Color => {
            let mut s = String::from_str("#");
            proof { reveal_strlit("#"); reveal_strlit("0123456789abcdef"); }
            push_hex_byte(&mut s, random_byte());
            push_hex_byte(&mut s, random_byte());
            push_hex_byte(&mut s, random_byte());
            assert(is_color_text(s@));
            JsonValue::Str(s)
        },
    }
}

} // verus!
