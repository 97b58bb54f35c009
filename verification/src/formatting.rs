//! Formatting of the dashboard display values: the headcount as a plain
//! decimal string, the total cost as a currency string with thousands
//! separators, and the placeholder rule for a failed chart rendering.

use vstd::prelude::*;
use vstd::string::StringExecFns;

use crate::aggregate::AggregationResult;

verus! {

/// The decimal digit character for a value between 0 and 9.
pub open spec fn spec_digit_char(d: int) -> char {
    if d == 0 {
        '0'
    } else if d == 1 {
        '1'
    } else if d == 2 {
        '2'
    } else if d == 3 {
        '3'
    } else if d == 4 {
        '4'
    } else if d == 5 {
        '5'
    } else if d == 6 {
        '6'
    } else if d == 7 {
        '7'
    } else if d == 8 {
        '8'
    } else {
        '9'
    }
}

/// The decimal digits of a non-negative value, most significant first,
/// without separators or leading zeros (the value 0 is the single digit 0).
pub open spec fn spec_decimal_digits(n: int) -> Seq<char>
    recommends
        n >= 0,
    decreases n,
{
    if n < 10 {
        seq![spec_digit_char(n)]
    } else {
        spec_decimal_digits(n / 10).push(spec_digit_char(n % 10))
    }
}

/// A value below 1000 written with exactly three digits, padded with
/// leading zeros.
pub open spec fn spec_pad3(m: int) -> Seq<char>
    recommends
        0 <= m < 1000,
{
    seq![spec_digit_char(m / 100), spec_digit_char((m / 10) % 10), spec_digit_char(m % 10)]
}

/// The decimal digits of a non-negative value grouped in threes from the
/// right, with a comma between the groups.
pub open spec fn spec_group_digits(n: int) -> Seq<char>
    recommends
        n >= 0,
    decreases n,
{
    if n < 1000 {
        spec_decimal_digits(n)
    } else {
        spec_group_digits(n / 1000) + seq![','] + spec_pad3(n % 1000)
    }
}

/// A signed value as common US formatting writes it: comma-grouped
/// decimal digits with a leading '-' when the value is negative.
pub open spec fn spec_formatted_en(n: int) -> Seq<char> {
    if n < 0 {
        seq!['-'] + spec_group_digits(-n)
    } else {
        spec_group_digits(n)
    }
}

/// The single-character string for a decimal digit value.
fn digit_str(d: u64) -> (r: &'static str)
    requires
        d < 10,
    ensures
        r@ == seq![spec_digit_char(d as int)],
{
    proof {
        reveal_strlit("0");
        reveal_strlit("1");
        reveal_strlit("2");
        reveal_strlit("3");
        reveal_strlit("4");
        reveal_strlit("5");
        reveal_strlit("6");
        reveal_strlit("7");
        reveal_strlit("8");
        reveal_strlit("9");
    }
    let r = if d == 0 {
        "0"
    } else if d == 1 {
        "1"
    } else if d == 2 {
        "2"
    } else if d == 3 {
        "3"
    } else if d == 4 {
        "4"
    } else if d == 5 {
        "5"
    } else if d == 6 {
        "6"
    } else if d == 7 {
        "7"
    } else if d == 8 {
        "8"
    } else {
        "9"
    };
    proof {
        assert(r@ =~= seq![spec_digit_char(d as int)]);
    }
    r
}

/// A non-negative value written as a plain decimal string, as the
/// headcount widget displays it.
pub fn decimal_string(n: u64) -> (r: String)
    ensures
        r@ == spec_decimal_digits(n as int),
    decreases n,
{
    if n < 10 {
        digit_str(n).to_owned()
    } else {
        let mut r = decimal_string(n / 10);
        r.append(digit_str(n % 10));
        proof {
            assert(r@ =~= spec_decimal_digits((n / 10) as int).push(
                spec_digit_char((n % 10) as int),
            ));
        }
        r
    }
}

/// Relies on num_format's `Buffer::write_formatted` with `Locale::en`:
/// it writes the decimal digits of the value grouped in threes by the
/// separator "," of that locale, with the locale's minus sign "-" in
/// front of a negative value.
#[verifier::external_body]
fn write_formatted_en(n: i128) -> (r: String)
    ensures
        r@ == spec_formatted_en(n as int),
{
    let mut buf = num_format::Buffer::default();
    buf.write_formatted(&n, &num_format::Locale::en);
    buf.as_str().to_owned()
}

/// The total team cost as the dashboard displays it: a '$' prefix
/// followed by the comma-grouped value.
pub fn format_total_cost(total_cost: i128) -> (r: String)
    ensures
        r@ == seq!['$'] + spec_formatted_en(total_cost as int),
{
    let mut r = "$".to_owned();
    let grouped = write_formatted_en(total_cost);
    r.append(grouped.as_str());
    proof {
        reveal_strlit("$");
        assert("$"@ =~= seq!['$']);
    }
    r
}

/// The three (label, value) display pairs of the dashboard widgets, in
/// the order team headcount, monthly team cost, latest member: the
/// headcount as a plain integer string, the cost as the formatted
/// currency string, and the latest member's name unchanged.
pub fn widget_values(result: &AggregationResult) -> (r: (String, String, String))
    ensures
        r.0@ == spec_decimal_digits(result.headcount as int),
        r.1@ == seq!['$'] + spec_formatted_en(result.total_cost as int),
        r.2@ == result.latest_member@,
{
    (
        decimal_string(result.headcount as u64),
        format_total_cost(result.total_cost),
        result.latest_member.clone(),
    )
}

/// The placeholder markup shown when the chart renderer fails.
pub open spec fn spec_chart_placeholder() -> Seq<char> {
    "<p>Error generating chart</p>"@
}

/// Local recovery for a failed chart rendering: a successful rendering
/// passes through unchanged, a failed one degrades to the visible
/// placeholder instead of propagating an error.
pub fn chart_or_placeholder(rendered: Option<String>) -> (r: String)
    ensures
        rendered matches Some(svg) ==> r@ == svg@,
        rendered is None ==> r@ == spec_chart_placeholder(),
{
    match rendered {
        Some(svg) => svg,
        None => "<p>Error generating chart</p>".to_owned(),
    }
}

} // verus!
