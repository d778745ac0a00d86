use vstd::prelude::*;
use vstd::string::StringExecFns;

verus! {

#[verifier::external_type_specification]
#[verifier::external_body]
pub struct ExCsvError(csv::Error);

/// Why reading an array, or writing one out, failed.
///
/// Row indices count from zero over the records that the source yields.
/// The fixed-shape reader reports overruns without their size, so that an
/// oversized source or row is never drained; the dynamic-shape reader, which
/// decodes each whole row anyway, reports both counts.
#[derive(Debug)]
pub enum ReadError {
    /// The record source could not decode a row.
    Decode(csv::Error),
    /// The source ended after `actual` rows where `expected` were asked for.
    TooFewRows { expected: usize, actual: usize },
    /// The source holds more than the `expected` rows.
    TooManyRows { expected: usize },
    /// Row `at_row_index` holds `actual` values where `expected` were asked for.
    TooFewColumns { at_row_index: usize, expected: usize, actual: usize },
    /// Row `at_row_index` holds more than the `expected` values.
    TooManyColumns { at_row_index: usize, expected: usize },
    /// Row `at_row_index` holds `actual` values where the first row held `expected`.
    NColumns { at_row_index: usize, expected: usize, actual: usize },
    /// The record sink refused a row or the final flush.
    Sink(csv::Error),
}

/// The character of decimal digit `d`.
pub open spec fn digit_char(d: nat) -> char {
    if d == 0 {
        '0'
    } else if d == 1 {
        '1'
    } else if d == 2 {
        '2'
    } else if d == 3 {
        '3'
    } else if d == 4 {
        '4'
    } else if d == 5 {
        '5'
    } else if d == 6 {
        '6'
    } else if d == 7 {
        '7'
    } else if d == 8 {
        '8'
    } else {
        '9'
    }
}

/// `n` in decimal, without leading zeros.
pub open spec fn decimal(n: nat) -> Seq<char>
    decreases n,
{
    if n < 10 {
        seq![digit_char(n)]
    } else {
        decimal(n / 10).push(digit_char(n % 10))
    }
}

/// The message of an error that the readers find in the shape of the data.
pub open spec fn shape_message(e: ReadError) -> Seq<char> {
    match e {
        ReadError::TooFewRows { expected, actual } => "Expected "@ + decimal(expected as nat)
            + " rows but got "@ + decimal(actual as nat) + " rows"@,
        ReadError::TooManyRows { expected } => "Expected "@ + decimal(expected as nat)
            + " rows but got more rows"@,
        ReadError::TooFewColumns { at_row_index, expected, actual } => "On row "@ + decimal(
            at_row_index as nat,
        ) + ", expected "@ + decimal(expected as nat) + " columns but got "@ + decimal(
            actual as nat,
        ) + " columns"@,
        ReadError::TooManyColumns { at_row_index, expected } => "On row "@ + decimal(
            at_row_index as nat,
        ) + ", expected "@ + decimal(expected as nat) + " columns but got more columns"@,
        ReadError::NColumns { at_row_index, expected, actual } => "On row "@ + decimal(
            at_row_index as nat,
        ) + ", expected "@ + decimal(expected as nat) + " columns but got "@ + decimal(
            actual as nat,
        ) + " columns"@,
        _ => Seq::empty(),
    }
}

/// Relies on csv's `Display` for `csv::Error` (through `to_string`): the
/// error's own message.
#[verifier::external_body]
fn csv_message(e: &csv::Error) -> String {
    e.to_string()
}

/// Appends decimal digit `d`.
fn push_digit(out: &mut String, d: usize)
    requires
        d < 10,
    ensures
        final(out)@ == old(out)@.push(digit_char(d as nat)),
{
    let digit = if d == 0 {
        "0"
    } else if d == 1 {
        "1"
    } else if d == 2 {
        "2"
    } else if d == 3 {
        "3"
    } else if d == 4 {
        "4"
    } else if d == 5 {
        "5"
    } else if d == 6 {
        "6"
    } else if d == 7 {
        "7"
    } else if d == 8 {
        "8"
    } else {
        "9"
    };
    proof {
        reveal_strlit("0");
        reveal_strlit("1");
        reveal_strlit("2");
        reveal_strlit("3");
        reveal_strlit("4");
        reveal_strlit("5");
        reveal_strlit("6");
        reveal_strlit("7");
        reveal_strlit("8");
        reveal_strlit("9");
    }
    out.append(digit);
    assert(final(out)@ =~= old(out)@.push(digit_char(d as nat)));
}

/// Appends `n` in decimal.
pub fn push_decimal(out: &mut String, n: usize)
    ensures
        final(out)@ == old(out)@ + decimal(n as nat),
    decreases n,
{
    if n >= 10 {
        push_decimal(out, n / 10);
    }
    push_digit(out, n % 10);
    proof {
        if n >= 10 {
            assert(decimal(n as nat) == decimal((n / 10) as nat).push(digit_char((n % 10) as nat)));
        }
    }
    assert(final(out)@ =~= old(out)@ + decimal(n as nat));
}

impl ReadError {
    /// A one-line account of the error: the record codec's own message for
    /// `Decode` and `Sink`, and for the others the counts that disagree.
    pub fn message(&self) -> (r: String)
        ensures
            !(self is Decode || self is Sink) ==> r@ == shape_message(*self),
    {
        match self {
            ReadError::Decode(e) => csv_message(e),
            ReadError::Sink(e) => csv_message(e),
            ReadError::TooFewRows { expected, actual } => {
                let mut s = String::from_str("Expected ");
                push_decimal(&mut s, *expected);
                s.append(" rows but got ");
                push_decimal(&mut s, *actual);
                s.append(" rows");
                s
            },
            ReadError::TooManyRows { expected } => {
                let mut s = String::from_str("Expected ");
                push_decimal(&mut s, *expected);
                s.append(" rows but got more rows");
                s
            },
            ReadError::TooFewColumns { at_row_index, expected, actual } => {
                let mut s = String::from_str("On row ");
                push_decimal(&mut s, *at_row_index);
                s.append(", expected ");
                push_decimal(&mut s, *expected);
                s.append(" columns but got ");
                push_decimal(&mut s, *actual);
                s.append(" columns");
                s
            },
            ReadError::TooManyColumns { at_row_index, expected } => {
                let mut s = String::from_str("On row ");
                push_decimal(&mut s, *at_row_index);
                s.append(", expected ");
                push_decimal(&mut s, *expected);
                s.append(" columns but got more columns");
                s
            },
            ReadError::NColumns { at_row_index, expected, actual } => {
                let mut s = String::from_str("On row ");
                push_decimal(&mut s, *at_row_index);
                s.append(", expected ");
                push_decimal(&mut s, *expected);
                s.append(" columns but got ");
                push_decimal(&mut s, *actual);
                s.append(" columns");
                s
            },
        }
    }
}

} // verus!
