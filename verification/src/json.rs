use vstd::prelude::*;
use crate::color::{normalized_name, Color, ColorMode};
use crate::error::{Error, ErrorView, JsonType};
use crate::format::YLabelFormatter;
use crate::graph::setters::{indexed_series, labeled_series};
use crate::graph::{DataView, Graph, GraphView};
use crate::interval::IntervalView;
use crate::number::{
    exponent_len, exponent_starts, int_decimal, is_exponent_mark, parsed_number, readable, Rational,
};
use crate::skip_value::{SkipValue, SkipView};
use crate::utils::{chars_of, decimal, decimal_string_u64, same_text, string_of};

verus! {

/// A JSON number: a sign, a mantissa and a power of ten.
#[derive(Clone, Copy, Debug, PartialEq, Eq)]
pub struct JsonNumber {
    pub positive: bool,
    pub mantissa: u64,
    pub exponent: i16,
}

/// A JSON value. The members of an object stand in the order in which they were
/// written.
#[derive(Debug)]
pub enum Json {
    Null,
    Boolean(bool),
    Number(JsonNumber),
    Text(String),
    Array(Vec<Json>),
    Object(Vec<(String, Json)>),
}

/// The numeral of a JSON number: its sign, its mantissa, `e` and its exponent.
pub open spec fn numeral(number: JsonNumber) -> Seq<char> {
    (if number.positive { Seq::<char>::empty() } else { seq!['-'] }) + decimal(number.mantissa as nat) + seq!['e']
        + int_decimal(number.exponent as int)
}

/// The number that a numeral stands for, or what is wrong with the text: its exponent is
/// too long to be read, or it is no numeral.
pub open spec fn numeral_value(text: Seq<char>) -> Result<real, ErrorView> {
    if !readable(text) {
        Err(ErrorView::ExponentTooLong(text))
    } else {
        match parsed_number(text) {
            Some(value) => Ok(value),
            None => Err(ErrorView::HmathError),
        }
    }
}

/// The number that a numeral stands for, or what is wrong with the text.
pub fn read_numeral(text: &str) -> (r: Result<Rational, Error>)
    ensures
        match r {
            Ok(value) => value.wf() && numeral_value(text@) == Ok::<real, ErrorView>(value@),
            Err(e) => numeral_value(text@) == Err::<real, ErrorView>(e@),
        },
{
    match Rational::read(text) {
        Some(Ok(value)) => Ok(value),
        Some(Err(e)) => Err(Error::HmathError(e)),
        None => Err(Error::ExponentTooLong(text.to_owned())),
    }
}

/// The error for a value of the wrong type.
pub open spec fn type_error(key: Option<Seq<char>>, expected: JsonType, value: Json) -> ErrorView {
    ErrorView::JsonTypeError { key, expected, got: value.kind() }
}

/// The error for an array of the wrong length.
pub open spec fn length_error(key: Seq<char>, expected: nat, got: nat) -> ErrorView {
    ErrorView::JsonArrayLengthError { key: Some(key), expected, got }
}

impl Json {
    /// The type of the value, as errors name it.
    pub open spec fn kind(self) -> JsonType {
        match self {
            Json::Null => JsonType::Null,
            Json::Boolean(_) => JsonType::Boolean,
            Json::Number(_) => JsonType::Number,
            Json::Text(_) => JsonType::Text,
            Json::Array(_) => JsonType::Array(Box::new(JsonType::Any)),
            Json::Object(_) => JsonType::Object,
        }
    }

    /// The value as a size: a whole number from zero up to the largest of 32 bits,
    /// written without an exponent.
    pub open spec fn size(self) -> Option<nat> {
        match self {
            Json::Number(n) => if n.positive && n.exponent == 0 && n.mantissa <= u32::MAX {
                Some(n.mantissa as nat)
            } else {
                None
            },
            _ => None,
        }
    }

    /// The value as an index: a whole number of 32 bits with a sign, written without an
    /// exponent.
    pub open spec fn index(self) -> Option<int> {
        match self {
            Json::Number(n) => {
                let value = if n.positive { n.mantissa as int } else { -(n.mantissa as int) };
                if n.exponent == 0 && i32::MIN <= value <= i32::MAX {
                    Some(value)
                } else {
                    None
                }
            },
            _ => None,
        }
    }

    /// The value as a text.
    pub open spec fn text(self) -> Option<Seq<char>> {
        match self {
            Json::Text(text) => Some(text@),
            _ => None,
        }
    }

    /// The value as a number: what the numeral of a number, or the text of a text, stands
    /// for.
    pub open spec fn number(self) -> Result<real, ErrorView> {
        match self {
            Json::Number(n) => numeral_value(numeral(n)),
            Json::Text(text) => numeral_value(text@),
            _ => Err(type_error(None, JsonType::Number, self)),
        }
    }

    /// The type of the value, as errors name it.
    pub fn get_type(&self) -> (r: JsonType)
        ensures
            r == self.kind(),
    {
        match self {
            Json::Null => JsonType::Null,
            Json::Boolean(_) => JsonType::Boolean,
            Json::Number(_) => JsonType::Number,
            Json::Text(_) => JsonType::Text,
            Json::Array(_) => JsonType::Array(Box::new(JsonType::Any)),
            Json::Object(_) => JsonType::Object,
        }
    }

    /// The value as a size.
    pub fn as_u32(&self) -> (r: Option<u32>)
        ensures
            match r {
                Some(n) => self.size() == Some(n as nat),
                None => self.size() is None,
            },
    {
        match self {
            Json::Number(n) => if n.positive && n.exponent == 0 && n.mantissa <= u32::MAX as u64 {
                Some(n.mantissa as u32)
            } else {
                None
            },
            _ => None,
        }
    }

    /// The value as an index.
    pub fn as_i32(&self) -> (r: Option<i32>)
        ensures
            match r {
                Some(n) => self.index() == Some(n as int),
                None => self.index() is None,
            },
    {
        match self {
            Json::Number(n) => {
                if n.exponent != 0 || n.mantissa > 0x8000_0000 {
                    None
                } else if n.positive {
                    if n.mantissa <= 0x7FFF_FFFF { Some(n.mantissa as i32) } else { None }
                } else {
                    Some((-(n.mantissa as i64)) as i32)
                }
            },
            _ => None,
        }
    }

    /// The value as a text.
    pub fn as_str(&self) -> (r: Option<&str>)
        ensures
            match r {
                Some(text) => self.text() == Some(text@),
                None => self.text() is None,
            },
    {
        match self {
            Json::Text(text) => Some(text.as_str()),
            _ => None,
        }
    }

    /// The error for this value where a value of the type `expected` is asked for under
    /// `key`.
    pub fn wrong_type(&self, key: &str, expected: JsonType) -> (r: Error)
        ensures
            r@ == type_error(Some(key@), expected, *self),
    {
        Error::JsonTypeError { key: Some(key.to_owned()), expected, got: self.get_type() }
    }

    /// The value as a number.
    pub fn to_ratio(&self) -> (r: Result<Rational, Error>)
        ensures
            match r {
                Ok(value) => value.wf() && self.number() == Ok::<real, ErrorView>(value@),
                Err(e) => self.number() == Err::<real, ErrorView>(e@),
            },
    {
        match self {
            Json::Number(n) => {
                let mut chars: Vec<char> = Vec::new();
                if !n.positive {
                    chars.push('-');
                }
                let ghost sign = chars@;
                let mantissa = chars_of(decimal_string_u64(n.mantissa).as_str());
                let mut i: usize = 0;
                while i < mantissa.len()
                    invariant
                        i <= mantissa.len(),
                        chars@ == sign + mantissa@.take(i as int),
                    decreases mantissa.len() - i,
                {
                    chars.push(mantissa[i]);
                    i += 1;
                    assert(chars@ =~= sign + mantissa@.take(i as int));
                }
                assert(mantissa@.take(mantissa.len() as int) =~= mantissa@);
                chars.push('e');
                if n.exponent < 0 {
                    chars.push('-');
                }
                let ghost head = chars@;
                let size: u64 = if n.exponent < 0 { (-(n.exponent as i64)) as u64 } else { n.exponent as u64 };
                let exponent = chars_of(decimal_string_u64(size).as_str());
                let mut i: usize = 0;
                while i < exponent.len()
                    invariant
                        i <= exponent.len(),
                        chars@ == head + exponent@.take(i as int),
                    decreases exponent.len() - i,
                {
                    chars.push(exponent[i]);
                    i += 1;
                    assert(chars@ =~= head + exponent@.take(i as int));
                }
                assert(exponent@.take(exponent.len() as int) =~= exponent@);
                assert(chars@ =~= numeral(*n));
                read_numeral(string_of(&chars).as_str())
            },
            Json::Text(text) => read_numeral(text.as_str()),
            _ => Err(Error::JsonTypeError { key: None, expected: JsonType::Number, got: self.get_type() }),
        }
    }
}

/// The numbers of the first `n` of the values, or what is wrong with the first that is
/// no number.
pub open spec fn numbers(items: Seq<Json>, n: nat) -> Result<Seq<real>, ErrorView>
    decreases n,
{
    if n == 0 {
        Ok(Seq::empty())
    } else {
        match numbers(items, (n - 1) as nat) {
            Err(e) => Err(e),
            Ok(before) => match items[n - 1].number() {
                Ok(value) => Ok(before.push(value)),
                Err(e) => Err(e),
            },
        }
    }
}

/// A label and a number: the two members of an array under `key`.
pub open spec fn labeled_number(key: Seq<char>, item: Json) -> Result<(Seq<char>, real), ErrorView> {
    match item {
        Json::Array(pair) => if pair.len() != 2 {
            Err(length_error(key, 2, pair.len() as nat))
        } else {
            match (pair[0].text(), pair[1].number()) {
                (None, _) => Err(type_error(Some(key), JsonType::Text, pair[0])),
                (Some(_), Err(e)) => Err(e),
                (Some(label), Ok(value)) => Ok((label, value)),
            }
        },
        _ => Err(type_error(Some(key), JsonType::Array(Box::new(JsonType::Any)), item)),
    }
}

/// The labelled numbers of the first `n` of the values, or what is wrong with the first
/// that is none.
pub open spec fn labeled_numbers(key: Seq<char>, items: Seq<Json>, n: nat) -> Result<Seq<(Seq<char>, real)>, ErrorView>
    decreases n,
{
    if n == 0 {
        Ok(Seq::empty())
    } else {
        match labeled_numbers(key, items, (n - 1) as nat) {
            Err(e) => Err(e),
            Ok(before) => match labeled_number(key, items[n - 1]) {
                Ok(entry) => Ok(before.push(entry)),
                Err(e) => Err(e),
            },
        }
    }
}

/// The sizes of the first `n` of the values, or what is wrong with the first that is no
/// size.
pub open spec fn sizes(key: Seq<char>, items: Seq<Json>, n: nat) -> Result<Seq<nat>, ErrorView>
    decreases n,
{
    if n == 0 {
        Ok(Seq::empty())
    } else {
        match sizes(key, items, (n - 1) as nat) {
            Err(e) => Err(e),
            Ok(before) => match items[n - 1].size() {
                Some(size) => Ok(before.push(size)),
                None => Err(type_error(Some(key), JsonType::Integer, items[n - 1])),
            },
        }
    }
}

/// An interval: the three members of an array under `key`, where `whole` is the value
/// under the key.
pub open spec fn interval_of(key: Seq<char>, whole: Json, item: Json) -> Result<IntervalView, ErrorView> {
    match item {
        Json::Array(parts) => if parts.len() != 3 {
            Err(length_error(key, 3, parts.len() as nat))
        } else {
            match (parts[0].index(), parts[1].index(), parts[2].text()) {
                (None, _, _) => Err(type_error(Some(key), JsonType::Integer, parts[0])),
                (Some(_), None, _) => Err(type_error(Some(key), JsonType::Integer, parts[1])),
                (Some(_), Some(_), None) => Err(type_error(Some(key), JsonType::Text, parts[2])),
                (Some(start), Some(end), Some(label)) => Ok(
                    IntervalView { start, end, plot_start: 0, plot_end: 0, label },
                ),
            }
        },
        _ => Err(type_error(Some(key), JsonType::Array(Box::new(JsonType::Any)), whole)),
    }
}

/// The intervals of the first `n` of the values, behind the intervals `before`, or what
/// is wrong with the first that is none.
pub open spec fn intervals_of(
    key: Seq<char>,
    whole: Json,
    items: Seq<Json>,
    before: Seq<IntervalView>,
    n: nat,
) -> Result<Seq<IntervalView>, ErrorView>
    decreases n,
{
    if n == 0 {
        Ok(before)
    } else {
        match intervals_of(key, whole, items, before, (n - 1) as nat) {
            Err(e) => Err(e),
            Ok(so_far) => match interval_of(key, whole, items[n - 1]) {
                Ok(interval) => Ok(so_far.push(interval)),
                Err(e) => Err(e),
            },
        }
    }
}

/// The series of the values, each labelled with its index.
pub open spec fn series_of(values: Seq<real>) -> DataView {
    DataView::Series { labels: Seq::new(values.len(), |i: int| decimal(i as nat)), values }
}

/// The series of the labelled values.
pub open spec fn series_of_labeled(entries: Seq<(Seq<char>, real)>) -> DataView {
    DataView::Series {
        labels: entries.map_values(|entry: (Seq<char>, real)| entry.0),
        values: entries.map_values(|entry: (Seq<char>, real)| entry.1),
    }
}

/// The views of numbers.
pub open spec fn views(numbers: Seq<Rational>) -> Seq<real> {
    numbers.map_values(|number: Rational| number@)
}

/// The numbers of the values.
pub fn read_numbers(items: &Vec<Json>) -> (r: Result<Vec<Rational>, Error>)
    ensures
        match r {
            Ok(values) => numbers(items@, items.len() as nat) == Ok::<Seq<real>, ErrorView>(views(values@)) && forall|
                i: int,
            | 0 <= i < values.len() ==> (#[trigger] values[i]).wf(),
            Err(e) => numbers(items@, items.len() as nat) == Err::<Seq<real>, ErrorView>(e@),
        },
{
    let mut values: Vec<Rational> = Vec::new();
    let mut i: usize = 0;
    assert(views(values@) =~= Seq::empty());
    while i < items.len()
        invariant
            i <= items.len(),
            numbers(items@, i as nat) == Ok::<Seq<real>, ErrorView>(views(values@)),
            forall|k: int| 0 <= k < values.len() ==> (#[trigger] values[k]).wf(),
        decreases items.len() - i,
    {
        let ghost before = views(values@);
        match items[i].to_ratio() {
            Ok(value) => {
                values.push(value);
                assert(views(values@) =~= before.push(value@));
            },
            Err(e) => {
                proof {
                    lemma_numbers_fail(items@, (i + 1) as nat, items.len() as nat);
                }
                return Err(e);
            },
        }
        i += 1;
    }
    Ok(values)
}

/// Once a value is no number, more values change nothing.
pub proof fn lemma_numbers_fail(items: Seq<Json>, n: nat, m: nat)
    requires
        n <= m,
    ensures
        numbers(items, n) is Err ==> numbers(items, m) == numbers(items, n),
    decreases m,
{
    if n < m {
        lemma_numbers_fail(items, n, (m - 1) as nat);
    }
}

/// Once a value is no labelled number, more values change nothing.
pub proof fn lemma_labeled_numbers_fail(key: Seq<char>, items: Seq<Json>, n: nat, m: nat)
    requires
        n <= m,
    ensures
        labeled_numbers(key, items, n) is Err ==> labeled_numbers(key, items, m) == labeled_numbers(key, items, n),
    decreases m,
{
    if n < m {
        lemma_labeled_numbers_fail(key, items, n, (m - 1) as nat);
    }
}

/// Once a value is no size, more values change nothing.
pub proof fn lemma_sizes_fail(key: Seq<char>, items: Seq<Json>, n: nat, m: nat)
    requires
        n <= m,
    ensures
        sizes(key, items, n) is Err ==> sizes(key, items, m) == sizes(key, items, n),
    decreases m,
{
    if n < m {
        lemma_sizes_fail(key, items, n, (m - 1) as nat);
    }
}

/// Once a value is no interval, more values change nothing.
pub proof fn lemma_intervals_fail(
    key: Seq<char>,
    whole: Json,
    items: Seq<Json>,
    before: Seq<IntervalView>,
    n: nat,
    m: nat,
)
    requires
        n <= m,
    ensures
        intervals_of(key, whole, items, before, n) is Err ==> intervals_of(key, whole, items, before, m)
            == intervals_of(key, whole, items, before, n),
    decreases m,
{
    if n < m {
        lemma_intervals_fail(key, whole, items, before, n, (m - 1) as nat);
    }
}

/// The views of labelled numbers.
pub open spec fn entry_views(entries: Seq<(String, Rational)>) -> Seq<(Seq<char>, real)> {
    entries.map_values(|entry: (String, Rational)| (entry.0@, entry.1@))
}

/// The labelled numbers of the values under `key`.
pub fn read_labeled_numbers(key: &str, items: &Vec<Json>) -> (r: Result<Vec<(String, Rational)>, Error>)
    ensures
        match r {
            Ok(entries) => labeled_numbers(key@, items@, items.len() as nat) == Ok::<Seq<(Seq<char>, real)>, ErrorView>(
                entry_views(entries@),
            ) && forall|i: int| 0 <= i < entries.len() ==> (#[trigger] entries[i]).1.wf(),
            Err(e) => labeled_numbers(key@, items@, items.len() as nat) == Err::<Seq<(Seq<char>, real)>, ErrorView>(
                e@,
            ),
        },
{
    let mut entries: Vec<(String, Rational)> = Vec::new();
    let mut i: usize = 0;
    assert(entry_views(entries@) =~= Seq::empty());
    while i < items.len()
        invariant
            i <= items.len(),
            labeled_numbers(key@, items@, i as nat) == Ok::<Seq<(Seq<char>, real)>, ErrorView>(entry_views(entries@)),
            forall|k: int| 0 <= k < entries.len() ==> (#[trigger] entries[k]).1.wf(),
        decreases items.len() - i,
    {
        let ghost before = entry_views(entries@);
        proof {
            lemma_labeled_numbers_fail(key@, items@, (i + 1) as nat, items.len() as nat);
        }
        match &items[i] {
            Json::Array(pair) => {
                if pair.len() != 2 {
                    return Err(
                        Error::JsonArrayLengthError { key: Some(key.to_owned()), expected: 2, got: pair.len() },
                    );
                }
                let label = match pair[0].as_str() {
                    Some(label) => label.to_owned(),
                    None => {
                        return Err(pair[0].wrong_type(key, JsonType::Text));
                    },
                };
                let value = match pair[1].to_ratio() {
                    Ok(value) => value,
                    Err(e) => {
                        return Err(e);
                    },
                };
                entries.push((label, value));
                assert(entry_views(entries@) =~= before.push((label@, value@)));
            },
            _ => {
                return Err(items[i].wrong_type(key, JsonType::Array(Box::new(JsonType::Any))));
            },
        }
        i += 1;
    }
    Ok(entries)
}

/// The sizes of the values under `key`.
pub fn read_sizes(key: &str, items: &Vec<Json>) -> (r: Result<Vec<usize>, Error>)
    ensures
        match r {
            Ok(found) => sizes(key@, items@, items.len() as nat) == Ok::<Seq<nat>, ErrorView>(
                found@.map_values(|n: usize| n as nat),
            ),
            Err(e) => sizes(key@, items@, items.len() as nat) == Err::<Seq<nat>, ErrorView>(e@),
        },
{
    let mut found: Vec<usize> = Vec::new();
    let mut i: usize = 0;
    assert(found@.map_values(|n: usize| n as nat) =~= Seq::empty());
    while i < items.len()
        invariant
            i <= items.len(),
            sizes(key@, items@, i as nat) == Ok::<Seq<nat>, ErrorView>(found@.map_values(|n: usize| n as nat)),
        decreases items.len() - i,
    {
        let ghost before = found@.map_values(|n: usize| n as nat);
        proof {
            lemma_sizes_fail(key@, items@, (i + 1) as nat, items.len() as nat);
        }
        match items[i].as_u32() {
            Some(n) => {
                found.push(n as usize);
                assert(found@.map_values(|n: usize| n as nat) =~= before.push(n as nat));
            },
            None => {
                return Err(items[i].wrong_type(key, JsonType::Integer));
            },
        }
        i += 1;
    }
    Ok(found)
}

/// Adds the intervals of the values under `key` to the plot; `whole` is the value under
/// the key.
pub fn read_intervals(graph: &mut Graph, key: &str, whole: &Json, items: &Vec<Json>) -> (r: Result<(), Error>)
    ensures
        match r {
            Ok(_) => intervals_of(key@, *whole, items@, old(graph)@.labeled_intervals, items.len() as nat) == Ok::<
                Seq<IntervalView>,
                ErrorView,
            >(final(graph)@.labeled_intervals) && final(graph)@ == (GraphView {
                labeled_intervals: final(graph)@.labeled_intervals,
                ..old(graph)@
            }) && final(graph).wf() == old(graph).wf(),
            Err(e) => intervals_of(key@, *whole, items@, old(graph)@.labeled_intervals, items.len() as nat) == Err::<
                Seq<IntervalView>,
                ErrorView,
            >(e@),
        },
{
    let mut i: usize = 0;
    while i < items.len()
        invariant
            i <= items.len(),
            intervals_of(key@, *whole, items@, old(graph)@.labeled_intervals, i as nat) == Ok::<
                Seq<IntervalView>,
                ErrorView,
            >(graph@.labeled_intervals),
            graph@ == (GraphView { labeled_intervals: graph@.labeled_intervals, ..old(graph)@ }),
            graph.wf() == old(graph).wf(),
        decreases items.len() - i,
    {
        proof {
            lemma_intervals_fail(key@, *whole, items@, old(graph)@.labeled_intervals, (i + 1) as nat, items.len() as nat);
        }
        match &items[i] {
            Json::Array(parts) => {
                if parts.len() != 3 {
                    return Err(
                        Error::JsonArrayLengthError { key: Some(key.to_owned()), expected: 3, got: parts.len() },
                    );
                }
                let start = match parts[0].as_i32() {
                    Some(n) => n,
                    None => {
                        return Err(parts[0].wrong_type(key, JsonType::Integer));
                    },
                };
                let end = match parts[1].as_i32() {
                    Some(n) => n,
                    None => {
                        return Err(parts[1].wrong_type(key, JsonType::Integer));
                    },
                };
                let label = match parts[2].as_str() {
                    Some(label) => label.to_owned(),
                    None => {
                        return Err(parts[2].wrong_type(key, JsonType::Text));
                    },
                };
                graph.add_labeled_interval(start, end, label);
            },
            _ => {
                return Err(whole.wrong_type(key, JsonType::Array(Box::new(JsonType::Any))));
            },
        }
        i += 1;
    }
    Ok(())
}

/// The number under a key that asks for one.
pub open spec fn with_number(graph: GraphView, key: Seq<char>, value: Json) -> Result<GraphView, ErrorView> {
    match value.number() {
        Err(e) => Err(e),
        Ok(number) => if key == "y_min"@ {
            Ok(GraphView { y_min: Some(number), ..graph })
        } else if key == "y_max"@ {
            Ok(GraphView { y_max: Some(number), ..graph })
        } else {
            Ok(GraphView { pretty_y: Some(number), ..graph })
        },
    }
}

/// The size under a key that asks for one.
pub open spec fn with_size(graph: GraphView, key: Seq<char>, value: Json) -> Result<GraphView, ErrorView> {
    match value.size() {
        None => Err(type_error(Some(key), JsonType::Integer, value)),
        Some(size) => if key == "plot_width"@ {
            Ok(GraphView { plot_width: size, ..graph })
        } else if key == "plot_height"@ {
            Ok(GraphView { plot_height: size, ..graph })
        } else if key == "x_label_margin"@ {
            Ok(GraphView { x_label_margin: size, ..graph })
        } else if key == "y_label_margin"@ {
            Ok(GraphView { y_label_margin: size, ..graph })
        } else {
            Ok(GraphView { block_width: Some(size), ..graph })
        },
    }
}

/// The text under a key that asks for one.
pub open spec fn with_text(graph: GraphView, key: Seq<char>, value: Json) -> Result<GraphView, ErrorView> {
    match value.text() {
        None => Err(type_error(Some(key), JsonType::Text, value)),
        Some(text) => if key == "title"@ {
            Ok(GraphView { title: Some(text), ..graph })
        } else if key == "x_axis_label"@ {
            Ok(GraphView { x_axis_label: Some(text), ..graph })
        } else if key == "y_axis_label"@ {
            Ok(GraphView { y_axis_label: Some(text), ..graph })
        } else if key == "y_label_prefix"@ {
            Ok(GraphView { y_label_affixes: (text, graph.y_label_affixes.1), ..graph })
        } else if key == "y_label_suffix"@ {
            Ok(GraphView { y_label_affixes: (graph.y_label_affixes.0, text), ..graph })
        } else if key == "color_mode"@ {
            match ColorMode::named(normalized_name(text)) {
                Some(kind) => Ok(GraphView { color_mode: kind.mode(), ..graph }),
                None => Err(ErrorView::InvalidColorMode(normalized_name(text))),
            }
        } else {
            match Color::named(normalized_name(text)) {
                None => Err(ErrorView::InvalidColorName(normalized_name(text))),
                Some(color) => if key == "title_color"@ {
                    Ok(GraphView { title_color: Some(color), ..graph })
                } else {
                    Ok(GraphView { primary_color: Some(color), ..graph })
                },
            }
        },
    }
}

/// The two numbers of an array of two under `key`.
pub open spec fn two_numbers(key: Seq<char>, items: Seq<Json>) -> Result<(real, real), ErrorView> {
    if items.len() != 2 {
        Err(length_error(key, 2, items.len()))
    } else {
        match (items[0].number(), items[1].number()) {
            (Err(e), _) => Err(e),
            (Ok(_), Err(e)) => Err(e),
            (Ok(first), Ok(second)) => Ok((first, second)),
        }
    }
}

/// The members of an array; none for any other value.
pub open spec fn members(value: Json) -> Seq<Json> {
    match value {
        Json::Array(items) => items@,
        _ => Seq::empty(),
    }
}

/// The plot with what stands under `key` set from `value`, or what is wrong with the
/// value or the key.
pub open spec fn configured(graph: GraphView, key: Seq<char>, value: Json) -> Result<GraphView, ErrorView> {
    if key == "1d_data"@ {
        match value {
            Json::Array(items) => match numbers(items@, items.len() as nat) {
                Ok(values) => Ok(GraphView { data: series_of(values), ..graph }),
                Err(e) => Err(e),
            },
            _ => Err(type_error(Some(key), JsonType::Array(Box::new(JsonType::Number)), value)),
        }
    } else if key == "1d_labeled_data"@ {
        match value {
            Json::Array(items) => match labeled_numbers(key, items@, items.len() as nat) {
                Ok(entries) => Ok(GraphView { data: series_of_labeled(entries), ..graph }),
                Err(e) => Err(e),
            },
            _ => Err(
                type_error(
                    Some(key),
                    JsonType::Array(Box::new(JsonType::Array(Box::new(JsonType::Any)))),
                    value,
                ),
            ),
        }
    } else if key == "y_min"@ || key == "y_max"@ || key == "pretty_y"@ {
        with_number(graph, key, value)
    } else if key == "y_range"@ {
        match two_numbers(key, members(value)) {
            Ok((low, high)) => Ok(GraphView { y_min: Some(low), y_max: Some(high), ..graph }),
            Err(e) => Err(e),
        }
    } else if key == "plot_width"@ || key == "plot_height"@ || key == "x_label_margin"@ || key == "y_label_margin"@
        || key == "block_width"@ {
        with_size(graph, key, value)
    } else if key == "paddings"@ {
        match value {
            Json::Array(items) => match sizes(key, items@, items.len() as nat) {
                Err(e) => Err(e),
                Ok(found) => if found.len() != 4 {
                    Err(length_error(key, 4, found.len()))
                } else {
                    Ok(
                        GraphView {
                            paddings: [found[0] as usize, found[1] as usize, found[2] as usize, found[3] as usize],
                            ..graph
                        },
                    )
                },
            },
            _ => Err(type_error(Some(key), JsonType::Array(Box::new(JsonType::Integer)), value)),
        }
    } else if key == "title"@ || key == "x_axis_label"@ || key == "y_axis_label"@ || key == "y_label_prefix"@ || key
        == "y_label_suffix"@ || key == "color_mode"@ || key == "title_color"@ || key == "primary_color"@ {
        with_text(graph, key, value)
    } else if key == "big_title"@ {
        match value {
            Json::Boolean(big_title) => Ok(GraphView { big_title, ..graph }),
            _ => Err(type_error(Some(key), JsonType::Boolean, value)),
        }
    } else if key == "skip_range"@ {
        match value {
            Json::Null => Ok(GraphView { skip_value: SkipView::Disabled, ..graph }),
            Json::Array(items) => match two_numbers(key, items@) {
                Ok((from, to)) => Ok(GraphView { skip_value: SkipView::Manual { from, to }, ..graph }),
                Err(e) => Err(e),
            },
            _ => Err(type_error(Some(key), JsonType::Array(Box::new(JsonType::Number)), value)),
        }
    } else if key == "labeled_intervals"@ {
        match value {
            Json::Array(items) => match intervals_of(key, value, items@, graph.labeled_intervals, items.len() as nat) {
                Ok(labeled_intervals) => Ok(GraphView { labeled_intervals, ..graph }),
                Err(e) => Err(e),
            },
            _ => Err(
                type_error(
                    Some(key),
                    JsonType::Array(Box::new(JsonType::Array(Box::new(JsonType::Any)))),
                    value,
                ),
            ),
        }
    } else {
        Err(ErrorView::UnknownKey(key))
    }
}

/// The plot after the first `n` entries of an object, or what is wrong with the first
/// entry with which something is wrong.
pub open spec fn configured_upto(graph: GraphView, entries: Seq<(String, Json)>, n: nat) -> Result<GraphView, ErrorView>
    decreases n,
{
    if n == 0 {
        Ok(graph)
    } else {
        match configured_upto(graph, entries, (n - 1) as nat) {
            Err(e) => Err(e),
            Ok(before) => configured(before, entries[n - 1].0@, entries[n - 1].1),
        }
    }
}

/// The plot that a JSON value describes: an object sets what its keys name, in their
/// order, and an array of numbers is a series. Or what is wrong with the description.
pub open spec fn described(json: Json) -> Result<GraphView, ErrorView> {
    match json {
        Json::Object(entries) => configured_upto(GraphView::initial(), entries@, entries.len() as nat),
        Json::Array(items) => match numbers(items@, items.len() as nat) {
            Ok(values) => Ok(GraphView { data: series_of(values), ..GraphView::initial() }),
            Err(e) => Err(e),
        },
        _ => Err(type_error(None, JsonType::Object, json)),
    }
}

/// Sets the number under a key that asks for one.
fn apply_number(graph: &mut Graph, key: &str, value: &Json) -> (r: Result<(), Error>)
    requires
        old(graph).wf(),
        key@ == "y_min"@ || key@ == "y_max"@ || key@ == "pretty_y"@,
    ensures
        match r {
            Ok(_) => final(graph).wf() && with_number(old(graph)@, key@, *value) == Ok::<GraphView, ErrorView>(
                final(graph)@,
            ),
            Err(e) => with_number(old(graph)@, key@, *value) == Err::<GraphView, ErrorView>(e@),
        },
{
    let number = match value.to_ratio() {
        Ok(number) => number,
        Err(e) => {
            return Err(e);
        },
    };
    if same_text(key, "y_min") {
        graph.set_y_min(number);
    } else if same_text(key, "y_max") {
        graph.set_y_max(number);
    } else {
        graph.set_pretty_y(number);
    }
    Ok(())
}

/// Sets the size under a key that asks for one.
fn apply_size(graph: &mut Graph, key: &str, value: &Json) -> (r: Result<(), Error>)
    requires
        old(graph).wf(),
    ensures
        match r {
            Ok(_) => final(graph).wf() && with_size(old(graph)@, key@, *value) == Ok::<GraphView, ErrorView>(
                final(graph)@,
            ),
            Err(e) => with_size(old(graph)@, key@, *value) == Err::<GraphView, ErrorView>(e@),
        },
{
    let size = match value.as_u32() {
        Some(n) => n as usize,
        None => {
            return Err(value.wrong_type(key, JsonType::Integer));
        },
    };
    if same_text(key, "plot_width") {
        graph.set_plot_width(size);
    } else if same_text(key, "plot_height") {
        graph.set_plot_height(size);
    } else if same_text(key, "x_label_margin") {
        graph.set_x_label_margin(size);
    } else if same_text(key, "y_label_margin") {
        graph.set_y_label_margin(size);
    } else {
        graph.set_block_width(size);
    }
    Ok(())
}

/// Sets the text under a key that asks for one.
fn apply_text(graph: &mut Graph, key: &str, value: &Json) -> (r: Result<(), Error>)
    requires
        old(graph).wf(),
    ensures
        match r {
            Ok(_) => final(graph).wf() && with_text(old(graph)@, key@, *value) == Ok::<GraphView, ErrorView>(
                final(graph)@,
            ),
            Err(e) => with_text(old(graph)@, key@, *value) == Err::<GraphView, ErrorView>(e@),
        },
{
    let text = match value.as_str() {
        Some(text) => text,
        None => {
            return Err(value.wrong_type(key, JsonType::Text));
        },
    };
    if same_text(key, "title") {
        graph.set_title(text);
    } else if same_text(key, "x_axis_label") {
        graph.set_x_axis_label(text);
    } else if same_text(key, "y_axis_label") {
        graph.set_y_axis_label(text);
    } else if same_text(key, "y_label_prefix") {
        let formatter = YLabelFormatter { prefix: text.to_owned(), suffix: graph.y_label_formatter.suffix.clone() };
        graph.set_y_label_formatter(formatter);
    } else if same_text(key, "y_label_suffix") {
        let formatter = YLabelFormatter { prefix: graph.y_label_formatter.prefix.clone(), suffix: text.to_owned() };
        graph.set_y_label_formatter(formatter);
    } else if same_text(key, "color_mode") {
        match ColorMode::from_name(text) {
            Ok(mode) => {
                graph.set_color_mode(mode);
            },
            Err(name) => {
                return Err(Error::InvalidColorMode(name));
            },
        }
    } else {
        match Color::from_name(text) {
            Ok(color) => {
                if same_text(key, "title_color") {
                    graph.set_title_color(Some(color));
                } else {
                    graph.set_primary_color(Some(color));
                }
            },
            Err(name) => {
                return Err(Error::InvalidColorName(name));
            },
        }
    }
    Ok(())
}

/// The two numbers of an array of two under `key`.
fn read_two_numbers(key: &str, items: &Vec<Json>) -> (r: Result<(Rational, Rational), Error>)
    ensures
        match r {
            Ok(pair) => pair.0.wf() && pair.1.wf() && two_numbers(key@, items@) == Ok::<(real, real), ErrorView>(
                (pair.0@, pair.1@),
            ),
            Err(e) => two_numbers(key@, items@) == Err::<(real, real), ErrorView>(e@),
        },
{
    if items.len() != 2 {
        return Err(Error::JsonArrayLengthError { key: Some(key.to_owned()), expected: 2, got: items.len() });
    }
    let first = match items[0].to_ratio() {
        Ok(number) => number,
        Err(e) => {
            return Err(e);
        },
    };
    let second = match items[1].to_ratio() {
        Ok(number) => number,
        Err(e) => {
            return Err(e);
        },
    };
    Ok((first, second))
}

/// Sets what stands under `key` from `value`.
pub fn apply(graph: &mut Graph, key: &str, value: &Json) -> (r: Result<(), Error>)
    requires
        old(graph).wf(),
    ensures
        match r {
            Ok(_) => final(graph).wf() && configured(old(graph)@, key@, *value) == Ok::<GraphView, ErrorView>(
                final(graph)@,
            ),
            Err(e) => configured(old(graph)@, key@, *value) == Err::<GraphView, ErrorView>(e@),
        },
{
    if same_text(key, "1d_data") {
        match value {
            Json::Array(items) => {
                let values = match read_numbers(items) {
                    Ok(values) => values,
                    Err(e) => {
                        return Err(e);
                    },
                };
                graph.set_1d_data(values.as_slice());
                assert(indexed_series(values@) =~= series_of(views(values@))) by {
                    assert(indexed_series(values@)->Series_values =~= views(values@));
                }
                Ok(())
            },
            _ => Err(value.wrong_type(key, JsonType::Array(Box::new(JsonType::Number)))),
        }
    } else if same_text(key, "1d_labeled_data") {
        match value {
            Json::Array(items) => {
                let entries = match read_labeled_numbers(key, items) {
                    Ok(entries) => entries,
                    Err(e) => {
                        return Err(e);
                    },
                };
                graph.set_1d_labeled_data(entries.as_slice());
                assert(labeled_series(entries@) =~= series_of_labeled(entry_views(entries@))) by {
                    assert(labeled_series(entries@)->Series_values =~= series_of_labeled(
                        entry_views(entries@),
                    )->Series_values);
                    assert(labeled_series(entries@)->Series_labels =~= series_of_labeled(
                        entry_views(entries@),
                    )->Series_labels);
                }
                Ok(())
            },
            _ => Err(
                value.wrong_type(key, JsonType::Array(Box::new(JsonType::Array(Box::new(JsonType::Any))))),
            ),
        }
    } else if same_text(key, "y_min") || same_text(key, "y_max") || same_text(key, "pretty_y") {
        apply_number(graph, key, value)
    } else if same_text(key, "y_range") {
        let none: Vec<Json> = Vec::new();
        let items = match value {
            Json::Array(items) => items,
            _ => &none,
        };
        assert(items@ == members(*value));
        match read_two_numbers(key, items) {
            Ok((low, high)) => {
                graph.set_y_range(low, high);
                Ok(())
            },
            Err(e) => Err(e),
        }
    } else if same_text(key, "plot_width") || same_text(key, "plot_height") || same_text(key, "x_label_margin")
        || same_text(key, "y_label_margin") || same_text(key, "block_width") {
        apply_size(graph, key, value)
    } else if same_text(key, "paddings") {
        match value {
            Json::Array(items) => {
                let found = match read_sizes(key, items) {
                    Ok(found) => found,
                    Err(e) => {
                        return Err(e);
                    },
                };
                if found.len() != 4 {
                    return Err(
                        Error::JsonArrayLengthError { key: Some(key.to_owned()), expected: 4, got: found.len() },
                    );
                }
                let ghost sizes = found@.map_values(|n: usize| n as nat);
                assert(sizes[0] == found[0] && sizes[1] == found[1] && sizes[2] == found[2] && sizes[3] == found[3]);
                graph.set_paddings([found[0], found[1], found[2], found[3]]);
                Ok(())
            },
            _ => Err(value.wrong_type(key, JsonType::Array(Box::new(JsonType::Integer)))),
        }
    } else if same_text(key, "title") || same_text(key, "x_axis_label") || same_text(key, "y_axis_label")
        || same_text(key, "y_label_prefix") || same_text(key, "y_label_suffix") || same_text(key, "color_mode")
        || same_text(key, "title_color") || same_text(key, "primary_color") {
        apply_text(graph, key, value)
    } else if same_text(key, "big_title") {
        match value {
            Json::Boolean(big_title) => {
                graph.set_big_title(*big_title);
                Ok(())
            },
            _ => Err(value.wrong_type(key, JsonType::Boolean)),
        }
    } else if same_text(key, "skip_range") {
        match value {
            Json::Null => {
                graph.set_skip_range(SkipValue::Disabled);
                Ok(())
            },
            Json::Array(items) => match read_two_numbers(key, items) {
                Ok((from, to)) => {
                    graph.set_skip_range(SkipValue::Manual { from, to });
                    Ok(())
                },
                Err(e) => Err(e),
            },
            _ => Err(value.wrong_type(key, JsonType::Array(Box::new(JsonType::Number)))),
        }
    } else if same_text(key, "labeled_intervals") {
        match value {
            Json::Array(items) => read_intervals(graph, key, value, items),
            _ => Err(
                value.wrong_type(key, JsonType::Array(Box::new(JsonType::Array(Box::new(JsonType::Any))))),
            ),
        }
    } else {
        Err(Error::UnknownKey(key.to_owned()))
    }
}

/// Once something is wrong with an entry, more entries change nothing.
pub proof fn lemma_configured_fail(graph: GraphView, entries: Seq<(String, Json)>, n: nat, m: nat)
    requires
        n <= m,
    ensures
        configured_upto(graph, entries, n) is Err ==> configured_upto(graph, entries, m) == configured_upto(
            graph,
            entries,
            n,
        ),
    decreases m,
{
    if n < m {
        lemma_configured_fail(graph, entries, n, (m - 1) as nat);
    }
}

impl Graph {
    /// The plot that a JSON value describes.
    ///
    /// An object may hold these keys:
    ///
    /// - `1d_data`: an array of numbers
    /// - `1d_labeled_data`: an array of arrays of a text and a number
    /// - `y_min`, `y_max`, `pretty_y`: a number
    /// - `y_range`: an array of two numbers
    /// - `plot_width`, `plot_height`, `x_label_margin`, `y_label_margin`, `block_width`: a
    ///   whole number
    /// - `paddings`: an array of four whole numbers
    /// - `title`, `x_axis_label`, `y_axis_label`, `y_label_prefix`, `y_label_suffix`: a text
    /// - `big_title`: `true` or `false`
    /// - `title_color`, `primary_color`: the name of a color
    /// - `color_mode`: the name of a color mode
    /// - `skip_range`: `null` to leave nothing out, or the two numbers of the range to leave
    ///   out; without this key the plot decides
    /// - `labeled_intervals`: an array of arrays of two whole numbers and a text
    ///
    /// A number is a JSON number or a text that holds a numeral. An array instead of an
    /// object is taken for `1d_data`.
    pub fn from_json(json: &Json) -> (r: Result<Graph, Error>)
        ensures
            match r {
                Ok(graph) => graph.wf() && described(*json) == Ok::<GraphView, ErrorView>(graph@),
                Err(e) => described(*json) == Err::<GraphView, ErrorView>(e@),
            },
    {
        let mut result = Graph::default();
        match json {
            Json::Object(entries) => {
                let mut i: usize = 0;
                while i < entries.len()
                    invariant
                        i <= entries.len(),
                        *json == Json::Object(*entries),
                        result.wf(),
                        configured_upto(GraphView::initial(), entries@, i as nat) == Ok::<GraphView, ErrorView>(
                            result@,
                        ),
                    decreases entries.len() - i,
                {
                    proof {
                        lemma_configured_fail(GraphView::initial(), entries@, (i + 1) as nat, entries.len() as nat);
                    }
                    let ghost before = result@;
                    let applied = apply(&mut result, entries[i].0.as_str(), &entries[i].1);
                    assert(configured_upto(GraphView::initial(), entries@, (i + 1) as nat) == configured(
                        before,
                        entries@[i as int].0@,
                        entries@[i as int].1,
                    ));
                    match applied {
                        Ok(_) => {},
                        Err(e) => {
                            return Err(e);
                        },
                    }
                    i += 1;
                }
                Ok(result)
            },
            Json::Array(items) => {
                let values = match read_numbers(items) {
                    Ok(values) => values,
                    Err(e) => {
                        return Err(e);
                    },
                };
                result.set_1d_data(values.as_slice());
                assert(indexed_series(values@) =~= series_of(views(values@))) by {
                    assert(indexed_series(values@)->Series_values =~= views(values@));
                }
                Ok(result)
            },
            _ => Err(Error::JsonTypeError { key: None, expected: JsonType::Object, got: json.get_type() }),
        }
    }
}

/// A decimal numeral is made of digits, and has no more of them than the number asks
/// for: at most five below a hundred thousand.
pub proof fn lemma_decimal_digits(n: nat)
    ensures
        forall|i: int| 0 <= i < decimal(n).len() ==> !is_exponent_mark(#[trigger] decimal(n)[i]) && decimal(n)[i] != '-',
        n < 100000 ==> decimal(n).len() <= 5,
        decimal(n).len() >= 1,
    decreases n,
{
    if n >= 10 {
        lemma_decimal_digits(n / 10);
        assert forall|i: int| 0 <= i < decimal(n).len() implies !is_exponent_mark(#[trigger] decimal(n)[i])
            && decimal(n)[i] != '-' by {
            if i < decimal(n / 10).len() {
                assert(decimal(n)[i] == decimal(n / 10)[i]);
            }
        }
        lemma_decimal_len(n);
    }
}

/// A number below the `k`-th power of ten has at most `k` digits, shown up to the fifth.
pub proof fn lemma_decimal_len(n: nat)
    ensures
        n < 10 ==> decimal(n).len() == 1,
        n < 100 ==> decimal(n).len() <= 2,
        n < 1000 ==> decimal(n).len() <= 3,
        n < 10000 ==> decimal(n).len() <= 4,
        n < 100000 ==> decimal(n).len() <= 5,
    decreases n,
{
    if n >= 10 {
        lemma_decimal_len(n / 10);
    }
}

/// The numeral of every JSON number can be read: its exponent has at most five digits.
pub proof fn lemma_numeral_readable(number: JsonNumber)
    ensures
        readable(numeral(number)),
{
    let sign = if number.positive { Seq::<char>::empty() } else { seq!['-'] };
    let mantissa = decimal(number.mantissa as nat);
    let size = if number.exponent < 0 { (-(number.exponent as int)) as nat } else { number.exponent as nat };
    let exponent = int_decimal(number.exponent as int);
    let text = numeral(number);
    let mark: int = (sign.len() + mantissa.len()) as int;
    lemma_decimal_digits(number.mantissa as nat);
    lemma_decimal_digits(size);
    assert(text == sign + mantissa + seq!['e'] + exponent);
    assert(text[mark] == 'e');
    assert forall|j: int| 0 <= j < mark implies !is_exponent_mark(#[trigger] text[j]) by {
        if j >= sign.len() {
            assert(text[j] == mantissa[j - sign.len()]);
        }
    }
    assert(exponent_starts(text, mark));
    assert forall|at: int| #[trigger] exponent_starts(text, at) implies exponent_len(text, at) <= 5 by {
        if at < mark {
            assert(!is_exponent_mark(text[at]));
        }
        if at > mark {
            assert(is_exponent_mark(text[mark]));
        }
        assert(at == mark);
        if number.exponent < 0 {
            assert(exponent == seq!['-'] + decimal(size));
            assert(text[mark + 1] == '-');
            assert(text.len() == mark + 2 + decimal(size).len());
        } else {
            assert(exponent == decimal(size));
            assert(text[mark + 1] == decimal(size)[0]);
            assert(text.len() == mark + 1 + decimal(size).len());
        }
    }
}

} // verus!
