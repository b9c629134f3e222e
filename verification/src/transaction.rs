//! Transactions and the parser that reads one from a line of text.

use crate::date::{date_of_text, Date};
use crate::location::{
    continent_of, country_of_text, Continent, Country,
};
use crate::number::{
    amount_outcome, decimal_string, decimal_text, parse_amount, parse_u32, u32_value, Amount,
    AmountError,
};
use crate::text::{
    chars_of, field_views, split, split_fields, string_of, to_upper, trim, trimmed, uppercased,
};
use vstd::prelude::*;
use vstd::string::StringExecFns;

verus! {

/// The number of fields in a record.
pub const FIELD_COUNT: usize = 7;

/// The position of the country among the fields of a record.
pub const COUNTRY_FIELD: usize = 5;

/// The least amount of the high value tier, in millionths.
pub const HIGH_VALUE_MICROS: u64 = 5_000_000_000;

/// The least amount of the medium value tier, in millionths.
pub const MEDIUM_VALUE_MICROS: u64 = 2_000_000_000;

/// The least number of days that makes a holding long-term.
pub const LONG_TERM_DAYS: i64 = 30;

/// One accepted record.
#[derive(Debug, Clone, PartialEq, Eq)]
pub struct Transaction {
    pub transaction_id: u32,
    pub client_id: u32,
    /// The asset's name, trimmed and in upper case.
    pub asset_name: String,
    pub country: Country,
    /// The continent of `country`.
    pub continent: Continent,
    pub amount: Amount,
    /// The whole days from the start date to the end date.
    pub days_under_management: i64,
}

/// What a `Transaction` holds, with its text as a sequence of characters.
pub ghost struct TransactionView {
    pub transaction_id: u32,
    pub client_id: u32,
    pub asset_name: Seq<char>,
    pub country: Country,
    pub continent: Continent,
    pub amount: Amount,
    pub days_under_management: i64,
}

impl View for Transaction {
    type V = TransactionView;

    open spec fn view(&self) -> TransactionView {
        TransactionView {
            transaction_id: self.transaction_id,
            client_id: self.client_id,
            asset_name: self.asset_name@,
            country: self.country,
            continent: self.continent,
            amount: self.amount,
            days_under_management: self.days_under_management,
        }
    }
}

impl TransactionView {
    /// What holds of every transaction that the parser accepts: positive
    /// identifiers and amount, a duration that is not negative, and the
    /// continent that belongs to the country.
    pub open spec fn is_valid(self) -> bool {
        &&& self.transaction_id > 0
        &&& self.client_id > 0
        &&& self.continent == continent_of(self.country)
        &&& self.amount.micros > 0
        &&& self.days_under_management >= 0
    }
}

/// Why a record is rejected.
#[derive(Debug, Clone, Copy, PartialEq, Eq, Structural)]
pub enum ParseErrorKind {
    /// The line does not have seven fields.
    FieldCount { found: usize },
    InvalidTransactionId,
    InvalidClientId,
    EmptyAssetName,
    InvalidStartDate,
    InvalidEndDate,
    EndBeforeStart,
    EmptyCountry,
    UnknownCountry,
    InvalidAmount,
    NonPositiveAmount,
}

/// The classes of rejection.
#[derive(Debug, Clone, Copy, PartialEq, Eq, Structural)]
pub enum ErrorCategory {
    /// The record has the wrong shape.
    Structure,
    /// A field cannot be read as the number or date that it should be.
    FieldFormat,
    /// The fields can be read, but what they say is not allowed.
    Semantic,
    /// The country is not in the catalog.
    Lookup,
}

/// The class of each rejection.
pub open spec fn category_of(kind: ParseErrorKind) -> ErrorCategory {
    match kind {
        ParseErrorKind::FieldCount { .. } => ErrorCategory::Structure,
        ParseErrorKind::InvalidTransactionId
        | ParseErrorKind::InvalidClientId
        | ParseErrorKind::InvalidStartDate
        | ParseErrorKind::InvalidEndDate
        | ParseErrorKind::InvalidAmount => ErrorCategory::FieldFormat,
        ParseErrorKind::EmptyAssetName
        | ParseErrorKind::EndBeforeStart
        | ParseErrorKind::NonPositiveAmount => ErrorCategory::Semantic,
        ParseErrorKind::EmptyCountry | ParseErrorKind::UnknownCountry => ErrorCategory::Lookup,
    }
}

impl ParseErrorKind {
    /// The class of the rejection.
    pub fn category(&self) -> (r: ErrorCategory)
        ensures
            r == category_of(*self),
    {
        match self {
            ParseErrorKind::FieldCount { .. } => ErrorCategory::Structure,
            ParseErrorKind::InvalidTransactionId
            | ParseErrorKind::InvalidClientId
            | ParseErrorKind::InvalidStartDate
            | ParseErrorKind::InvalidEndDate
            | ParseErrorKind::InvalidAmount => ErrorCategory::FieldFormat,
            ParseErrorKind::EmptyAssetName
            | ParseErrorKind::EndBeforeStart
            | ParseErrorKind::NonPositiveAmount => ErrorCategory::Semantic,
            ParseErrorKind::EmptyCountry | ParseErrorKind::UnknownCountry => ErrorCategory::Lookup,
        }
    }
}

/// A rejected record: why it was rejected, and the line as it was given.
#[derive(Debug, Clone, PartialEq, Eq)]
pub struct ParseError {
    pub kind: ParseErrorKind,
    pub raw_line: String,
}

/// The country of the line `line` as it is written there, without the
/// whitespace around it; empty if the line has no such field.
pub open spec fn country_field(line: Seq<char>) -> Seq<char> {
    let fields = split_fields(line);
    if fields.len() > COUNTRY_FIELD {
        trimmed(fields[COUNTRY_FIELD as int])
    } else {
        Seq::empty()
    }
}

/// The rejection `kind` of the line `line`, in words.
pub open spec fn error_text(kind: ParseErrorKind, line: Seq<char>) -> Seq<char> {
    match kind {
        ParseErrorKind::FieldCount { found } => "field count mismatch: expected 7, found "@
            + decimal_text(found as nat),
        ParseErrorKind::InvalidTransactionId => "invalid transaction id"@,
        ParseErrorKind::InvalidClientId => "invalid client id"@,
        ParseErrorKind::EmptyAssetName => "asset name cannot be empty"@,
        ParseErrorKind::InvalidStartDate => "invalid start date format: expected YYYY-MM-DD"@,
        ParseErrorKind::InvalidEndDate => "invalid end date format: expected YYYY-MM-DD"@,
        ParseErrorKind::EndBeforeStart => "end date before start date"@,
        ParseErrorKind::EmptyCountry => "country parsing error: empty input"@,
        ParseErrorKind::UnknownCountry => "country parsing error: unknown country: "@
            + country_field(line),
        ParseErrorKind::InvalidAmount => "invalid amount"@,
        ParseErrorKind::NonPositiveAmount => "amount must be positive"@,
    }
}

/// Says in words why the line `line` was rejected with `kind`.
pub fn describe(kind: ParseErrorKind, line: &str) -> (r: String)
    ensures
        r@ == error_text(kind, line@),
{
    match kind {
        ParseErrorKind::FieldCount { found } => String::from_str(
            "field count mismatch: expected 7, found ",
        ).concat(decimal_string(found).as_str()),
        ParseErrorKind::InvalidTransactionId => String::from_str("invalid transaction id"),
        ParseErrorKind::InvalidClientId => String::from_str("invalid client id"),
        ParseErrorKind::EmptyAssetName => String::from_str("asset name cannot be empty"),
        ParseErrorKind::InvalidStartDate => String::from_str(
            "invalid start date format: expected YYYY-MM-DD",
        ),
        ParseErrorKind::InvalidEndDate => String::from_str(
            "invalid end date format: expected YYYY-MM-DD",
        ),
        ParseErrorKind::EndBeforeStart => String::from_str("end date before start date"),
        ParseErrorKind::EmptyCountry => String::from_str("country parsing error: empty input"),
        ParseErrorKind::UnknownCountry => {
            let fields = split(&chars_of(line));
            let country = if fields.len() > COUNTRY_FIELD {
                assert(field_views(fields@)[COUNTRY_FIELD as int] == fields@[COUNTRY_FIELD as int]@);
                string_of(&trim(&fields[COUNTRY_FIELD]))
            } else {
                String::new()
            };
            String::from_str("country parsing error: unknown country: ").concat(country.as_str())
        },
        ParseErrorKind::InvalidAmount => String::from_str("invalid amount"),
        ParseErrorKind::NonPositiveAmount => String::from_str("amount must be positive"),
    }
}

impl ParseError {
    /// The class of the rejection.
    pub fn category(&self) -> (r: ErrorCategory)
        ensures
            r == category_of(self.kind),
    {
        self.kind.category()
    }

    /// The rejection in words.
    pub fn message(&self) -> (r: String)
        ensures
            r@ == error_text(self.kind, self.raw_line@),
    {
        describe(self.kind, self.raw_line.as_str())
    }
}

/// The positive identifier that `field` holds, if it holds one.
pub open spec fn identifier_of(field: Seq<char>) -> Option<u32> {
    match u32_value(trimmed(field)) {
        Some(id) if id > 0 => Some(id),
        _ => None,
    }
}

/// The outcome for a record with the fields `fields`, whose start and end
/// date fields have been read as `start` and `end`. The checks are made in
/// the order of the fields, and the first one that fails decides.
pub open spec fn record_outcome(
    fields: Seq<Seq<char>>,
    start: Option<Date>,
    end: Option<Date>,
) -> Result<TransactionView, ParseErrorKind> {
    if fields.len() != FIELD_COUNT {
        Err(ParseErrorKind::FieldCount { found: fields.len() as usize })
    } else if identifier_of(fields[0]) is None {
        Err(ParseErrorKind::InvalidTransactionId)
    } else if identifier_of(fields[1]) is None {
        Err(ParseErrorKind::InvalidClientId)
    } else if trimmed(fields[2]).len() == 0 {
        Err(ParseErrorKind::EmptyAssetName)
    } else if start is None {
        Err(ParseErrorKind::InvalidStartDate)
    } else if end is None {
        Err(ParseErrorKind::InvalidEndDate)
    } else if end->0.day_number < start->0.day_number {
        Err(ParseErrorKind::EndBeforeStart)
    } else if trimmed(fields[5]).len() == 0 {
        Err(ParseErrorKind::EmptyCountry)
    } else if country_of_text(fields[5]) is None {
        Err(ParseErrorKind::UnknownCountry)
    } else {
        match amount_outcome(trimmed(fields[6])) {
            Err(AmountError::Invalid) => Err(ParseErrorKind::InvalidAmount),
            Err(AmountError::NotPositive) => Err(ParseErrorKind::NonPositiveAmount),
            Ok(amount) => Ok(
                TransactionView {
                    transaction_id: identifier_of(fields[0])->0,
                    client_id: identifier_of(fields[1])->0,
                    asset_name: uppercased(trimmed(fields[2])),
                    country: country_of_text(fields[5])->0,
                    continent: continent_of(country_of_text(fields[5])->0),
                    amount,
                    days_under_management: (end->0.day_number - start->0.day_number) as i64,
                },
            ),
        }
    }
}

/// The outcome for the line `line`: its fields are the pieces between its
/// commas, and its dates are read from the fourth and the fifth of them.
pub open spec fn parse_record(line: Seq<char>) -> Result<TransactionView, ParseErrorKind> {
    let fields = split_fields(line);
    if fields.len() == FIELD_COUNT {
        record_outcome(fields, date_of_text(trimmed(fields[3])), date_of_text(trimmed(fields[4])))
    } else {
        record_outcome(fields, None, None)
    }
}

/// Whether the line `line` lacks a value: it does not have seven fields, or
/// one of them other than the country is empty or blank.
pub open spec fn lacks_values(line: Seq<char>) -> bool {
    let fields = split_fields(line);
    fields.len() != FIELD_COUNT || exists|i: int|
        0 <= i < fields.len() && i != COUNTRY_FIELD && (#[trigger] trimmed(fields[i])).len() == 0
}

/// The name of the value tier of an amount of `micros` millionths.
pub open spec fn value_tier_of(micros: u64) -> Seq<char> {
    if micros >= HIGH_VALUE_MICROS {
        "High Value"@
    } else if micros >= MEDIUM_VALUE_MICROS {
        "Medium Value"@
    } else {
        "Standard Value"@
    }
}

fn parse_identifier(field: &Vec<char>) -> (r: Option<u32>)
    ensures
        r == identifier_of(field@),
{
    match parse_u32(&trim(field)) {
        Some(id) => if id > 0 {
            Some(id)
        } else {
            None
        },
        None => None,
    }
}

impl Transaction {
    /// Builds a transaction from the fields of a record and from what its
    /// two date fields were read as, or says which check failed first.
    pub fn from_fields(fields: &Vec<Vec<char>>, start: Option<Date>, end: Option<Date>) -> (r:
        Result<Transaction, ParseErrorKind>)
        ensures
            match r {
                Ok(t) => record_outcome(field_views(fields@), start, end) == Ok::<
                    TransactionView,
                    ParseErrorKind,
                >(t@),
                Err(kind) => record_outcome(field_views(fields@), start, end) == Err::<
                    TransactionView,
                    ParseErrorKind,
                >(kind),
            },
    {
        let ghost views = field_views(fields@);
        if fields.len() != FIELD_COUNT {
            return Err(ParseErrorKind::FieldCount { found: fields.len() });
        }
        assert(forall|i: int| 0 <= i < 7 ==> views[i] == fields@[i]@);
        let transaction_id = match parse_identifier(&fields[0]) {
            Some(id) => id,
            None => { return Err(ParseErrorKind::InvalidTransactionId); },
        };
        let client_id = match parse_identifier(&fields[1]) {
            Some(id) => id,
            None => { return Err(ParseErrorKind::InvalidClientId); },
        };
        let name = trim(&fields[2]);
        if name.len() == 0 {
            return Err(ParseErrorKind::EmptyAssetName);
        }
        let start_date = match start {
            Some(date) => date,
            None => { return Err(ParseErrorKind::InvalidStartDate); },
        };
        let end_date = match end {
            Some(date) => date,
            None => { return Err(ParseErrorKind::InvalidEndDate); },
        };
        if end_date.is_before(&start_date) {
            return Err(ParseErrorKind::EndBeforeStart);
        }
        if trim(&fields[5]).len() == 0 {
            return Err(ParseErrorKind::EmptyCountry);
        }
        let country = match Country::from_chars(&fields[5]) {
            Some(country) => country,
            None => { return Err(ParseErrorKind::UnknownCountry); },
        };
        let continent = country.country_to_continent();
        let amount = match parse_amount(&trim(&fields[6])) {
            Ok(amount) => amount,
            Err(AmountError::Invalid) => { return Err(ParseErrorKind::InvalidAmount); },
            Err(AmountError::NotPositive) => { return Err(ParseErrorKind::NonPositiveAmount); },
        };
        Ok(
            Transaction {
                transaction_id,
                client_id,
                asset_name: string_of(&to_upper(&name)),
                country,
                continent,
                amount,
                days_under_management: start_date.days_until(&end_date),
            },
        )
    }

    /// Reads one record: seven comma-separated fields, which are the
    /// transaction's identifier, the client's identifier, the asset's name,
    /// the start date, the end date, the country and the amount.
    pub fn from_csv_line(line: &str) -> (r: Result<Transaction, ParseError>)
        ensures
            match r {
                Ok(t) => parse_record(line@) == Ok::<TransactionView, ParseErrorKind>(t@)
                    && t@.is_valid(),
                Err(e) => parse_record(line@) == Err::<TransactionView, ParseErrorKind>(e.kind)
                    && e.raw_line@ == line@,
            },
    {
        let fields = split(&chars_of(line));
        let ghost views = field_views(fields@);
        let (start, end) = if fields.len() == FIELD_COUNT {
            assert(forall|i: int| 0 <= i < 7 ==> views[i] == fields@[i]@);
            let start_text = string_of(&trim(&fields[3]));
            let end_text = string_of(&trim(&fields[4]));
            (Date::parse(start_text.as_str()), Date::parse(end_text.as_str()))
        } else {
            (None, None)
        };
        match Transaction::from_fields(&fields, start, end) {
            Ok(t) => Ok(t),
            Err(kind) => Err(ParseError { kind, raw_line: line.to_owned() }),
        }
    }

    /// The name of the transaction's value tier.
    pub fn get_value_tier(&self) -> (r: &str)
        ensures
            r@ == value_tier_of(self.amount.micros),
    {
        if self.amount.micros >= HIGH_VALUE_MICROS {
            "High Value"
        } else if self.amount.micros >= MEDIUM_VALUE_MICROS {
            "Medium Value"
        } else {
            "Standard Value"
        }
    }

    /// Whether the asset was held for at least thirty days.
    pub fn is_long_term(&self) -> (r: bool)
        ensures
            r == (self.days_under_management >= LONG_TERM_DAYS),
    {
        self.days_under_management >= LONG_TERM_DAYS
    }
}

/// Whether a line lacks a value: a quick look at a line, which does not read
/// the values. A missing country is let through; the parser reports it as a
/// country that cannot be found.
pub fn has_missing_values(line: &str) -> (r: bool)
    ensures
        r == lacks_values(line@),
{
    let fields = split(&chars_of(line));
    let ghost views = field_views(fields@);
    if fields.len() != FIELD_COUNT {
        return true;
    }
    let mut i: usize = 0;
    while i < fields.len()
        invariant
            i <= fields.len(),
            fields.len() == FIELD_COUNT,
            views == field_views(fields@),
            views == split_fields(line@),
            forall|j: int| 0 <= j < i && j != COUNTRY_FIELD ==> (#[trigger] trimmed(views[j])).len() > 0,
        decreases fields.len() - i,
    {
        assert(views[i as int] == fields@[i as int]@);
        if i != COUNTRY_FIELD && trim(&fields[i]).len() == 0 {
            return true;
        }
        i += 1;
    }
    false
}

/// Every record that is accepted gives a valid transaction: its continent is
/// that of its country, its amount is positive and its duration is not
/// negative.
pub proof fn lemma_accepted_record_is_valid(
    fields: Seq<Seq<char>>,
    start: Option<Date>,
    end: Option<Date>,
)
    ensures
        record_outcome(fields, start, end) matches Ok(t) ==> t.is_valid() && t.continent
            == continent_of(t.country) && t.amount.micros > 0 && t.days_under_management >= 0,
{
}

/// Every line that is accepted gives a valid transaction.
pub proof fn lemma_accepted_line_is_valid(line: Seq<char>)
    ensures
        parse_record(line) matches Ok(t) ==> t.is_valid(),
{
    let fields = split_fields(line);
    if fields.len() == FIELD_COUNT {
        lemma_accepted_record_is_valid(
            fields,
            date_of_text(trimmed(fields[3])),
            date_of_text(trimmed(fields[4])),
        );
    }
}

/// A line is rejected for its number of fields exactly if it does not have
/// seven of them, whatever the fields hold.
pub proof fn lemma_field_count_decides_first(line: Seq<char>)
    ensures
        split_fields(line).len() != FIELD_COUNT <==> parse_record(line) == Err::<
            TransactionView,
            ParseErrorKind,
        >(ParseErrorKind::FieldCount { found: split_fields(line).len() as usize }),
{
}

/// Whether an end date before the start date is what a record is rejected
/// for does not depend on its country and amount: two records that differ in
/// those two fields only are both rejected for it, or neither is.
pub proof fn lemma_date_order_ignores_later_fields(
    fields: Seq<Seq<char>>,
    others: Seq<Seq<char>>,
    start: Option<Date>,
    end: Option<Date>,
)
    requires
        fields.len() == FIELD_COUNT,
        others.len() == FIELD_COUNT,
        forall|i: int| 0 <= i < 5 ==> fields[i] == others[i],
    ensures
        record_outcome(fields, start, end) == Err::<TransactionView, ParseErrorKind>(
            ParseErrorKind::EndBeforeStart,
        ) <==> record_outcome(others, start, end) == Err::<TransactionView, ParseErrorKind>(
            ParseErrorKind::EndBeforeStart,
        ),
        record_outcome(fields, start, end) == Err::<TransactionView, ParseErrorKind>(
            ParseErrorKind::EndBeforeStart,
        ) ==> start is Some && end is Some && end->0.day_number < start->0.day_number,
{
}

/// A record is rejected for an unknown country only if its country field
/// holds a name that the catalog does not have; that is a failed lookup, and
/// a record is rejected as one only for its country.
pub proof fn lemma_unknown_country_is_lookup(
    fields: Seq<Seq<char>>,
    start: Option<Date>,
    end: Option<Date>,
)
    ensures
        record_outcome(fields, start, end) == Err::<TransactionView, ParseErrorKind>(
            ParseErrorKind::UnknownCountry,
        ) ==> fields.len() == FIELD_COUNT && trimmed(fields[5]).len() > 0 && country_of_text(
            fields[5],
        ) is None,
        category_of(ParseErrorKind::UnknownCountry) == ErrorCategory::Lookup,
        forall|kind: ParseErrorKind|
            category_of(kind) == ErrorCategory::Lookup <==> kind == ParseErrorKind::EmptyCountry
                || kind == ParseErrorKind::UnknownCountry,
{
}

/// A line that lacks an identifier, the asset's name or the amount, or that
/// does not have seven fields, is rejected by the parser too.
pub proof fn lemma_lines_lacking_values_are_rejected(line: Seq<char>)
    requires
        split_fields(line).len() != FIELD_COUNT || exists|i: int|
            (i == 0 || i == 1 || i == 2 || i == 6) && (#[trigger] trimmed(
                split_fields(line)[i],
            )).len() == 0,
    ensures
        lacks_values(line),
        parse_record(line) is Err,
{
}

} // verus!
