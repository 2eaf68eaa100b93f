//! The parameters of processors: what edits each of them, and what an edit makes of them.
//!
//! A value is one of a few plain sorts. Numbers that are not whole are carried as the
//! bits of their binary form and never computed with; the ranges that bound them are
//! given in thousandths.
use crate::pages::greatest;
use crate::text::{decimal, joined, letters_of, push_decimal, same_text, text_between};
use vstd::prelude::*;

verus! {

/// A value of a parameter.
#[derive(Debug)]
pub enum Value {
    Missing,
    Flag(bool),
    Unsigned(u64),
    Signed(i64),
    Real(u64),
    Text(String),
    List(Vec<Value>),
    Record(Vec<(String, Value)>),
}

/// What a parameter holds.
#[derive(Clone, Copy, Debug, PartialEq, Eq, Structural)]
pub enum ParameterValueType {
    Number,
    Integer,
    Boolean,
    Choice,
    Time,
    Rate,
    List,
}

/// What edits a parameter.
#[derive(Clone, Copy, Debug, PartialEq, Eq, Structural)]
pub enum Widget {
    /// The value is not what the parameter should hold: nothing edits it.
    Nothing,
    Slider { logarithmic: bool },
    /// A whole number that is not below zero.
    Counter,
    WholeNumber,
    Switch(bool),
    Choices,
    /// A number with a unit.
    Measure(MeasureRange),
    List,
}

/// The range of a number with a unit.
#[derive(Clone, Copy, Debug, PartialEq, Eq, Structural)]
pub enum MeasureRange {
    /// The parameter's own, or nothing to sixty-four.
    Own,
    /// From 0.01 to 40.
    Hertz,
    /// From 1/64 to 64.
    Beats,
}

/// A value is a number.
pub open spec fn is_number(value: Value) -> bool {
    value is Unsigned || value is Signed || value is Real
}

/// A value is a whole number that is not below zero.
pub open spec fn is_counter(value: Value) -> bool {
    value is Unsigned || (value matches Value::Signed(number) && number >= 0)
}

/// A value is a whole number.
pub open spec fn is_whole(value: Value) -> bool {
    value is Signed || (value matches Value::Unsigned(number) && number <= i64::MAX)
}

/// The place of the first field with a name, or the number of fields.
pub open spec fn field_place(fields: Seq<(String, Value)>, name: Seq<char>) -> int
    decreases fields.len(),
{
    if fields.len() == 0 {
        0
    } else if fields[0].0@ == name {
        0
    } else {
        1 + field_place(fields.skip(1), name)
    }
}

/// The field of a record with a name.
pub open spec fn field(value: Value, name: Seq<char>) -> Option<Value> {
    match value {
        Value::Record(fields) => {
            let place = field_place(fields@, name);
            if 0 <= place < fields@.len() {
                Some(fields@[place].1)
            } else {
                None
            }
        },
        _ => None,
    }
}

/// A number with a unit, if a value is one: its unit.
pub open spec fn unit_of(value: Value) -> Option<Seq<char>> {
    match (field(value, "unit"@), field(value, "value"@)) {
        (Some(Value::Text(unit)), Some(number)) => if is_number(number) {
            Some(unit@)
        } else {
            None
        },
        _ => None,
    }
}

/// What edits a parameter that holds a value. `hint` is how it likes to be shown, `above`
/// says that its least value is above zero.
pub open spec fn widget_of(
    sort: ParameterValueType,
    value: Value,
    hint: Seq<char>,
    above: bool,
) -> Widget {
    match sort {
        ParameterValueType::Number => if is_number(value) {
            Widget::Slider { logarithmic: hint == "logarithmic"@ && above }
        } else {
            Widget::Nothing
        },
        ParameterValueType::Integer => if is_counter(value) {
            Widget::Counter
        } else if is_whole(value) {
            Widget::WholeNumber
        } else {
            Widget::Nothing
        },
        ParameterValueType::Boolean => match value {
            Value::Flag(on) => Widget::Switch(on),
            _ => Widget::Nothing,
        },
        ParameterValueType::Choice => if value is Text {
            Widget::Choices
        } else {
            Widget::Nothing
        },
        ParameterValueType::Time => if unit_of(value) is Some {
            Widget::Measure(MeasureRange::Own)
        } else {
            Widget::Nothing
        },
        ParameterValueType::Rate => match unit_of(value) {
            Some(unit) => Widget::Measure(
                if unit == "hertz"@ {
                    MeasureRange::Hertz
                } else {
                    MeasureRange::Beats
                },
            ),
            None => Widget::Nothing,
        },
        ParameterValueType::List => if value is List {
            Widget::List
        } else {
            Widget::Nothing
        },
    }
}

fn find_field(fields: &Vec<(String, Value)>, name: &str) -> (place: usize)
    ensures
        place == field_place(fields@, name@),
        place <= fields@.len(),
{
    let mut place: usize = 0;
    assert(fields@.skip(0) =~= fields@);
    while place < fields.len()
        invariant
            place <= fields.len(),
            field_place(fields@, name@) == place + field_place(fields@.skip(place as int), name@),
        decreases fields.len() - place,
    {
        let ghost rest = fields@.skip(place as int);
        if same_text(fields[place].0.as_str(), name) {
            return place;
        }
        assert(rest.skip(1) =~= fields@.skip(place + 1));
        place += 1;
    }
    place
}

impl Value {
    /// Whether the value is a number.
    pub fn is_numeric(&self) -> (yes: bool)
        ensures
            yes == is_number(*self),
    {
        match self {
            Value::Unsigned(_) | Value::Signed(_) | Value::Real(_) => true,
            _ => false,
        }
    }

    /// The unit of a number with a unit.
    pub fn unit(&self) -> (unit: Option<String>)
        ensures
            match unit {
                Some(unit) => unit_of(*self) == Some(unit@),
                None => unit_of(*self) is None,
            },
    {
        match self {
            Value::Record(fields) => {
                let unit: usize = find_field(fields, "unit");
                let number: usize = find_field(fields, "value");
                if unit >= fields.len() || number >= fields.len() {
                    return None;
                }
                match &fields[unit].1 {
                    Value::Text(text) => if fields[number].1.is_numeric() {
                        Some(String::from_str(text.as_str()))
                    } else {
                        None
                    },
                    _ => None,
                }
            },
            _ => None,
        }
    }
}

/// What edits a parameter that holds a value.
pub fn parameter_widget(sort: ParameterValueType, value: &Value, hint: &str, above: bool) -> (widget:
    Widget)
    ensures
        widget == widget_of(sort, *value, hint@, above),
{
    match sort {
        ParameterValueType::Number => if value.is_numeric() {
            Widget::Slider { logarithmic: same_text(hint, "logarithmic") && above }
        } else {
            Widget::Nothing
        },
        ParameterValueType::Integer => match value {
            Value::Unsigned(_) => Widget::Counter,
            Value::Signed(number) => if *number >= 0 {
                Widget::Counter
            } else {
                Widget::WholeNumber
            },
            _ => Widget::Nothing,
        },
        ParameterValueType::Boolean => match value {
            Value::Flag(on) => Widget::Switch(*on),
            _ => Widget::Nothing,
        },
        ParameterValueType::Choice => match value {
            Value::Text(_) => Widget::Choices,
            _ => Widget::Nothing,
        },
        ParameterValueType::Time => if value.unit().is_some() {
            Widget::Measure(MeasureRange::Own)
        } else {
            Widget::Nothing
        },
        ParameterValueType::Rate => match value.unit() {
            Some(unit) => Widget::Measure(
                if same_text(unit.as_str(), "hertz") {
                    MeasureRange::Hertz
                } else {
                    MeasureRange::Beats
                },
            ),
            None => Widget::Nothing,
        },
        ParameterValueType::List => match value {
            Value::List(_) => Widget::List,
            _ => Widget::Nothing,
        },
    }
}

/// The units that a number with a unit is offered.
pub fn offered_units(sort: ParameterValueType) -> (units: (&'static str, &'static str))
    requires
        sort is Time || sort is Rate,
    ensures
        sort is Time ==> units.0@ == "beats"@ && units.1@ == "seconds"@,
        sort is Rate ==> units.0@ == "hertz"@ && units.1@ == "beats"@,
{
    if sort == ParameterValueType::Time {
        ("beats", "seconds")
    } else {
        ("hertz", "beats")
    }
}

/// A value is a number with this unit.
pub open spec fn is_measure(value: Value, unit: Seq<char>, number: u64) -> bool {
    value matches Value::Record(fields) && {
        &&& fields@.len() == 2
        &&& fields@[0].0@ == "unit"@
        &&& fields@[0].1 matches Value::Text(text) && text@ == unit
        &&& fields@[1].0@ == "value"@
        &&& fields@[1].1 == Value::Real(number)
    }
}

proof fn lemma_measure_has_unit(value: Value, unit: Seq<char>, number: u64)
    requires
        is_measure(value, unit, number),
    ensures
        unit_of(value) == Some(unit),
{
    reveal_strlit("unit");
    reveal_strlit("value");
    assert("unit"@ != "value"@) by {
        assert("unit"@.len() == 4);
        assert("value"@.len() == 5);
    }
    let fields = value->Record_0@;
    let rest = fields.skip(1);
    assert(rest[0] == fields[1]);
    assert(field_place(rest, "value"@) == 0);
    assert(field_place(fields, "unit"@) == 0);
    assert(field_place(fields, "value"@) == 1);
}

/// A number with a unit, as a value.
pub fn measure(unit: String, number: u64) -> (value: Value)
    ensures
        is_measure(value, unit@, number),
        unit_of(value) == Some(unit@),
{
    let mut fields: Vec<(String, Value)> = Vec::new();
    let ghost name = unit@;
    fields.push((String::from_str("unit"), Value::Text(unit)));
    fields.push((String::from_str("value"), Value::Real(number)));
    let value = Value::Record(fields);
    proof {
        lemma_measure_has_unit(value, name, number);
    }
    value
}

/// The range of a number, in thousandths: its own, or a million either way.
pub fn slider_range(own: Option<(i64, i64)>) -> (range: (i64, i64))
    ensures
        range == (match own {
            Some(own) => own,
            None => (-1_000_000_000i64, 1_000_000_000i64),
        }),
{
    match own {
        Some(own) => own,
        None => (-1_000_000_000, 1_000_000_000),
    }
}

/// The whole part of a number in thousandths, towards zero.
pub open spec fn whole_part(number: int) -> int {
    if number >= 0 {
        number / 1_000
    } else {
        -((-number) / 1_000)
    }
}

/// The range of a whole number that is not below zero: the whole part of its own, which is
/// given in thousandths, as far as it is not below zero, or any.
pub fn counter_range(own: Option<(i64, i64)>) -> (range: (u64, u64))
    ensures
        match own {
            Some((low, high)) => range.0 == greatest(whole_part(low as int), 0) && range.1
                == greatest(whole_part(high as int), 0),
            None => range == (0u64, u64::MAX),
        },
{
    match own {
        Some((low, high)) => (
            if low > 0 {
                low as u64 / 1_000
            } else {
                0
            },
            if high > 0 {
                high as u64 / 1_000
            } else {
                0
            },
        ),
        None => (0, u64::MAX),
    }
}

fn find_whole(number: i64) -> (whole: i64)
    ensures
        whole == whole_part(number as int),
{
    if number >= 0 {
        number / 1_000
    } else {
        (-(-(number as i128) / 1_000)) as i64
    }
}

/// The range of a whole number: the whole part of its own, which is given in thousandths, or
/// any.
pub fn whole_range(own: Option<(i64, i64)>) -> (range: (i64, i64))
    ensures
        match own {
            Some((low, high)) => range.0 == whole_part(low as int) && range.1 == whole_part(
                high as int,
            ),
            None => range == (i64::MIN, i64::MAX),
        },
{
    match own {
        Some((low, high)) => (find_whole(low), find_whole(high)),
        None => (i64::MIN, i64::MAX),
    }
}

/// The range of a number with a unit, in millionths. Its own is given in thousandths.
pub fn measure_range(range: MeasureRange, own: Option<(i64, i64)>) -> (bounds: (i128, i128))
    ensures
        bounds == (match range {
            MeasureRange::Own => match own {
                Some((low, high)) => ((low * 1_000) as i128, (high * 1_000) as i128),
                None => (0i128, 64_000_000i128),
            },
            MeasureRange::Hertz => (10_000i128, 40_000_000i128),
            MeasureRange::Beats => (15_625i128, 64_000_000i128),
        }),
{
    match range {
        MeasureRange::Own => match own {
            Some((low, high)) => (low as i128 * 1_000, high as i128 * 1_000),
            None => (0, 64_000_000),
        },
        MeasureRange::Hertz => (10_000, 40_000_000),
        MeasureRange::Beats => (15_625, 64_000_000),
    }
}

/// The number of a field, by what it means, in thousandths: from where to where it goes.
pub open spec fn number_range(key: Seq<char>) -> (int, int) {
    if key == "frequency_hz"@ {
        (10_000, 24_000_000)
    } else if key == "gain_db"@ {
        (-24_000, 24_000)
    } else if key == "q"@ {
        (100, 30_000)
    } else if key == "level"@ {
        (0, 1_000)
    } else {
        (-1_000_000_000, 1_000_000_000)
    }
}

/// The range of the number of a field, in thousandths.
pub fn field_range(key: &str) -> (range: (i64, i64))
    ensures
        (range.0 as int, range.1 as int) == number_range(key@),
{
    if same_text(key, "frequency_hz") {
        (10_000, 24_000_000)
    } else if same_text(key, "gain_db") {
        (-24_000, 24_000)
    } else if same_text(key, "q") {
        (100, 30_000)
    } else if same_text(key, "level") {
        (0, 1_000)
    } else {
        (-1_000_000_000, 1_000_000_000)
    }
}

/// What the text of a field is chosen from; other texts are typed.
pub open spec fn text_choices(key: Seq<char>) -> Seq<Seq<char>> {
    if key == "shape"@ {
        seq![
            "bell"@,
            "low_shelf"@,
            "high_shelf"@,
            "low_pass"@,
            "high_pass"@,
            "band_pass"@,
            "notch"@,
        ]
    } else if key == "slope_db_per_octave"@ {
        seq!["db12"@, "db24"@, "db36"@, "db48"@]
    } else {
        Seq::empty()
    }
}

/// What the text of a field is chosen from; other texts are typed.
pub fn field_choices(key: &str) -> (choices: Vec<&'static str>)
    ensures
        choices@.map_values(|choice: &'static str| choice@) == text_choices(key@),
{
    let mut choices: Vec<&'static str> = Vec::new();
    if same_text(key, "shape") {
        choices.push("bell");
        choices.push("low_shelf");
        choices.push("high_shelf");
        choices.push("low_pass");
        choices.push("high_pass");
        choices.push("band_pass");
        choices.push("notch");
    } else if same_text(key, "slope_db_per_octave") {
        choices.push("db12");
        choices.push("db24");
        choices.push("db36");
        choices.push("db48");
    }
    assert(choices@.map_values(|choice: &'static str| choice@) =~= text_choices(key@));
    choices
}

/// What edits a field of a record.
#[derive(Clone, Copy, Debug, PartialEq, Eq, Structural)]
pub enum FieldWidget {
    Nothing,
    Switch(bool),
    /// A number between two, in thousandths.
    Number(i64, i64),
    Choices,
    Typed,
}

/// What edits a field of a record.
pub open spec fn field_widget_of(key: Seq<char>, value: Value) -> FieldWidget {
    match value {
        Value::Flag(on) => FieldWidget::Switch(on),
        Value::Text(_) => if text_choices(key).len() == 0 {
            FieldWidget::Typed
        } else {
            FieldWidget::Choices
        },
        _ => if is_number(value) {
            FieldWidget::Number(number_range(key).0 as i64, number_range(key).1 as i64)
        } else {
            FieldWidget::Nothing
        },
    }
}

/// What edits a field of a record.
pub fn structured_field_widget(key: &str, value: &Value) -> (widget: FieldWidget)
    ensures
        widget == field_widget_of(key@, *value),
{
    match value {
        Value::Flag(on) => FieldWidget::Switch(*on),
        Value::Text(_) => {
            let choices = field_choices(key);
            let ghost models = choices@.map_values(|choice: &'static str| choice@);
            assert(models.len() == choices@.len());
            if choices.len() == 0 {
                FieldWidget::Typed
            } else {
                FieldWidget::Choices
            }
        },
        _ => if value.is_numeric() {
            let range = field_range(key);
            FieldWidget::Number(range.0, range.1)
        } else {
            FieldWidget::Nothing
        },
    }
}

/// A change of a field of a record.
#[derive(Debug)]
pub enum FieldEdit {
    /// The switch was thrown.
    Switch,
    /// The number was changed to this.
    Number(u64),
    /// This one of the texts to choose from was chosen.
    Choose(usize),
    /// This text was typed.
    Type(String),
}

/// Whether a change of a field changes anything.
pub open spec fn field_changes(key: Seq<char>, value: Value, edit: FieldEdit) -> bool {
    let choices = text_choices(key);
    match (value, edit) {
        (Value::Flag(_), FieldEdit::Switch) => true,
        (Value::Text(text), FieldEdit::Choose(index)) => index < choices.len()
            && choices[index as int] != text@,
        (Value::Text(text), FieldEdit::Type(typed)) => choices.len() == 0 && typed@ != text@,
        (_, FieldEdit::Number(_)) => is_number(value),
        _ => false,
    }
}

/// What a change makes of a field.
pub open spec fn field_becomes(key: Seq<char>, value: Value, edit: FieldEdit, after: Value) -> bool {
    if !field_changes(key, value, edit) {
        after == value
    } else {
        match edit {
            FieldEdit::Switch => after == Value::Flag(!value->Flag_0),
            FieldEdit::Number(number) => after == Value::Real(number),
            FieldEdit::Choose(index) => after matches Value::Text(chosen) && chosen@
                == text_choices(key)[index as int],
            FieldEdit::Type(typed) => after == Value::Text(typed),
        }
    }
}

/// Changes a field of a record, and says whether anything changed. A change that its widget
/// cannot make changes nothing.
pub fn structured_field_edit(key: &str, value: &mut Value, edit: FieldEdit) -> (changed: bool)
    ensures
        changed == field_changes(key@, *old(value), edit),
        field_becomes(key@, *old(value), edit, *final(value)),
{
    let mut held = Value::Missing;
    std::mem::swap(&mut held, value);
    match (held, edit) {
        (Value::Flag(on), FieldEdit::Switch) => {
            *value = Value::Flag(!on);
            true
        },
        (Value::Text(text), FieldEdit::Choose(index)) => {
            let choices = field_choices(key);
            let ghost models = choices@.map_values(|choice: &'static str| choice@);
            assert(models.len() == choices@.len());
            if index < choices.len() && !same_text(choices[index], text.as_str()) {
                assert(models[index as int] == choices@[index as int]@);
                *value = Value::Text(String::from_str(choices[index]));
                true
            } else {
                assert(index < choices.len() ==> models[index as int] == choices@[index as int]@);
                *value = Value::Text(text);
                false
            }
        },
        (Value::Text(text), FieldEdit::Type(typed)) => {
            let choices = field_choices(key);
            let ghost models = choices@.map_values(|choice: &'static str| choice@);
            assert(models.len() == choices@.len());
            if choices.len() == 0 && !same_text(typed.as_str(), text.as_str()) {
                *value = Value::Text(typed);
                true
            } else {
                *value = Value::Text(text);
                false
            }
        },
        (held, FieldEdit::Number(number)) => {
            if held.is_numeric() {
                *value = Value::Real(number);
                true
            } else {
                *value = held;
                false
            }
        },
        (held, _) => {
            *value = held;
            false
        },
    }
}

/// A thousand, in the bits of its binary form.
pub const ONE_THOUSAND: u64 = 0x408f_4000_0000_0000;

/// 0.707, in the bits of its binary form.
pub const FLAT_Q: u64 = 0x3fe6_9fbe_76c8_b439;

/// One, in the bits of its binary form.
pub const ONE: u64 = 0x3ff0_0000_0000_0000;

/// A value that is no list and no record.
pub enum PlainValue {
    Flag(bool),
    Real(u64),
    Text(Seq<char>),
}

/// A value is this one.
pub open spec fn is_plain(value: Value, plain: PlainValue) -> bool {
    match plain {
        PlainValue::Flag(on) => value == Value::Flag(on),
        PlainValue::Real(number) => value == Value::Real(number),
        PlainValue::Text(letters) => value matches Value::Text(text) && text@ == letters,
    }
}

/// The fields of a new item: a band is a bell at 1000 Hz that does nothing yet, any other item
/// has its full level.
pub open spec fn new_fields(parameter: Seq<char>) -> Seq<(Seq<char>, PlainValue)> {
    if parameter == "bands"@ {
        seq![
            ("enabled"@, PlainValue::Flag(true)),
            ("shape"@, PlainValue::Text("bell"@)),
            ("frequency_hz"@, PlainValue::Real(ONE_THOUSAND)),
            ("gain_db"@, PlainValue::Real(0)),
            ("q"@, PlainValue::Real(FLAT_Q)),
            ("slope_db_per_octave"@, PlainValue::Text("db12"@)),
        ]
    } else {
        seq![("level"@, PlainValue::Real(ONE))]
    }
}

/// A value is a new item of a list.
pub open spec fn is_new_item(value: Value, parameter: Seq<char>) -> bool {
    value matches Value::Record(fields) && {
        &&& fields@.len() == new_fields(parameter).len()
        &&& forall|i: int|
            0 <= i < fields@.len() ==> (#[trigger] fields@[i]).0@ == new_fields(parameter)[i].0
                && is_plain(fields@[i].1, new_fields(parameter)[i].1)
    }
}

/// A new item of a list.
pub fn new_item(parameter: &str) -> (item: Value)
    ensures
        is_new_item(item, parameter@),
{
    let mut fields: Vec<(String, Value)> = Vec::new();
    if same_text(parameter, "bands") {
        fields.push((String::from_str("enabled"), Value::Flag(true)));
        fields.push((String::from_str("shape"), Value::Text(String::from_str("bell"))));
        fields.push((String::from_str("frequency_hz"), Value::Real(ONE_THOUSAND)));
        fields.push((String::from_str("gain_db"), Value::Real(0)));
        fields.push((String::from_str("q"), Value::Real(FLAT_Q)));
        fields.push(
            (String::from_str("slope_db_per_octave"), Value::Text(String::from_str("db12"))),
        );
    } else {
        fields.push((String::from_str("level"), Value::Real(ONE)));
    }
    Value::Record(fields)
}

/// A change of a list.
#[derive(Debug)]
pub enum ListEdit {
    Remove(usize),
    /// Add a new item.
    Append,
    /// A field of an item was edited, given by its place in the item; an item that is no record
    /// is edited as one field.
    Field { index: usize, field: usize, edit: FieldEdit },
}

/// Whether a change of a field changes anything in an item.
pub open spec fn item_changes(item: Value, field: usize, edit: FieldEdit) -> bool {
    match item {
        Value::Record(fields) => field < fields@.len() && field_changes(
            fields@[field as int].0@,
            fields@[field as int].1,
            edit,
        ),
        _ => field_changes("value"@, item, edit),
    }
}

/// What a change of a field makes of an item.
pub open spec fn item_becomes(item: Value, field: usize, edit: FieldEdit, after: Value) -> bool {
    match item {
        Value::Record(fields) => after matches Value::Record(others) && {
            &&& others@.len() == fields@.len()
            &&& field < fields@.len() ==> others@[field as int].0 == fields@[field as int].0
                && field_becomes(
                fields@[field as int].0@,
                fields@[field as int].1,
                edit,
                others@[field as int].1,
            )
            &&& forall|i: int|
                0 <= i < fields@.len() && i != field ==> #[trigger] others@[i] == fields@[i]
        },
        _ => field_becomes("value"@, item, edit, after),
    }
}

/// Changes a field of an item, and says whether anything changed.
fn edit_item(item: Value, field: usize, edit: FieldEdit) -> (result: (Value, bool))
    ensures
        item_becomes(item, field, edit, result.0),
        result.1 == item_changes(item, field, edit),
{
    match item {
        Value::Record(mut fields) => {
            if field < fields.len() {
                let (key, mut value) = fields.remove(field);
                let changed = structured_field_edit(key.as_str(), &mut value, edit);
                fields.insert(field, (key, value));
                (Value::Record(fields), changed)
            } else {
                (Value::Record(fields), false)
            }
        },
        other => {
            let mut value = other;
            let changed = structured_field_edit("value", &mut value, edit);
            (value, changed)
        },
    }
}

/// How many items a list can have.
pub open spec fn list_limit(parameter: Seq<char>) -> nat {
    if parameter == "bands"@ {
        8
    } else {
        64
    }
}

/// How many items a list can have.
pub fn most_items(parameter: &str) -> (limit: usize)
    ensures
        limit == list_limit(parameter@),
{
    if same_text(parameter, "bands") {
        8
    } else {
        64
    }
}

/// Whether a change of a list changes anything.
pub open spec fn list_changes(items: Seq<Value>, parameter: Seq<char>, edit: ListEdit) -> bool {
    match edit {
        ListEdit::Remove(index) => index < items.len(),
        ListEdit::Append => items.len() < list_limit(parameter),
        ListEdit::Field { index, field, edit } => index < items.len() && item_changes(
            items[index as int],
            field,
            edit,
        ),
    }
}

/// What a change makes of a list.
pub open spec fn list_becomes(
    items: Seq<Value>,
    parameter: Seq<char>,
    edit: ListEdit,
    after: Seq<Value>,
) -> bool {
    match edit {
        ListEdit::Remove(index) => after == if index < items.len() {
            items.remove(index as int)
        } else {
            items
        },
        ListEdit::Append => if items.len() < list_limit(parameter) {
            after.len() == items.len() + 1 && after.drop_last() == items && is_new_item(
                after.last(),
                parameter,
            )
        } else {
            after == items
        },
        ListEdit::Field { index, field, edit } => {
            &&& after.len() == items.len()
            &&& index < items.len() ==> item_becomes(
                items[index as int],
                field,
                edit,
                after[index as int],
            )
            &&& forall|i: int|
                0 <= i < items.len() && i != index ==> #[trigger] after[i] == items[i]
        },
    }
}

/// Changes a list, and says whether anything changed. What is no list stays as it is.
pub fn structured_list_widget(value: &mut Value, parameter: &str, edit: ListEdit) -> (changed: bool)
    ensures
        match *old(value) {
            Value::List(items) => {
                &&& *final(value) matches Value::List(after) && list_becomes(
                    items@,
                    parameter@,
                    edit,
                    after@,
                )
                &&& changed == list_changes(items@, parameter@, edit)
            },
            _ => *final(value) == *old(value) && !changed,
        },
{
    let mut held = Value::Missing;
    std::mem::swap(&mut held, value);
    match held {
        Value::List(mut items) => {
            let ghost before = items@;
            let mut changed = false;
            match edit {
                ListEdit::Remove(index) => {
                    if index < items.len() {
                        items.remove(index);
                        changed = true;
                    }
                },
                ListEdit::Append => {
                    if items.len() < most_items(parameter) {
                        items.push(new_item(parameter));
                        changed = true;
                        assert(items@.drop_last() =~= before);
                    }
                },
                ListEdit::Field { index, field, edit } => {
                    if index < items.len() {
                        let item = items.remove(index);
                        let (after, edited) = edit_item(item, field, edit);
                        items.insert(index, after);
                        changed = edited;
                    }
                },
            }
            *value = Value::List(items);
            changed
        },
        other => {
            *value = other;
            false
        },
    }
}

/// What the user did with the widget of a parameter.
#[derive(Debug)]
pub enum ParameterEdit {
    /// The slider was moved to this number.
    Number(u64),
    /// The number that is not below zero was changed to this.
    Counter(u64),
    /// The whole number was changed to this.
    Whole(i64),
    /// The switch was thrown.
    Switch,
    /// This one of the parameter's choices was chosen.
    Choose(usize),
    /// The number with a unit is this, and was moved or was not; this one of the units was
    /// chosen.
    Measure { number: u64, moved: bool, unit: Option<bool> },
    List(ListEdit),
}

/// A whole number as a value.
pub open spec fn whole_value(number: i64) -> Value {
    if number >= 0 {
        Value::Unsigned(number as u64)
    } else {
        Value::Signed(number)
    }
}

/// The units that a number with a unit is offered; the second one is `true`.
pub open spec fn unit_offered(sort: ParameterValueType, second: bool) -> Seq<char> {
    match (sort, second) {
        (ParameterValueType::Time, false) => "beats"@,
        (ParameterValueType::Time, true) => "seconds"@,
        (_, false) => "hertz"@,
        (_, true) => "beats"@,
    }
}

/// What the user's edit of a parameter gives, if it changes anything.
pub open spec fn edit_gives(
    sort: ParameterValueType,
    value: Value,
    choices: Seq<String>,
    parameter: Seq<char>,
    edit: ParameterEdit,
    result: Option<Value>,
) -> bool {
    match (widget_of(sort, value, Seq::empty(), false), edit) {
        (Widget::Slider { .. }, ParameterEdit::Number(number)) => result == Some(
            Value::Real(number),
        ),
        (Widget::Counter, ParameterEdit::Counter(number)) => result == Some(
            Value::Unsigned(number),
        ),
        (Widget::WholeNumber, ParameterEdit::Whole(number)) => result == Some(whole_value(number)),
        (Widget::Switch(on), ParameterEdit::Switch) => result == Some(Value::Flag(!on)),
        (Widget::Choices, ParameterEdit::Choose(index)) => if index < choices.len()
            && choices[index as int]@ != value->Text_0@ {
            result matches Some(Value::Text(chosen)) && chosen@ == choices[index as int]@
        } else {
            result is None
        },
        (Widget::Measure(_), ParameterEdit::Measure { number, moved, unit }) => {
            let before = unit_of(value)->0;
            let after = match unit {
                Some(second) => unit_offered(sort, second),
                None => before,
            };
            if moved || after != before {
                result matches Some(given) && is_measure(given, after, number)
            } else {
                result is None
            }
        },
        (Widget::List, ParameterEdit::List(edit)) => if list_changes(
            value->List_0@,
            parameter,
            edit,
        ) {
            result matches Some(Value::List(after)) && list_becomes(
                value->List_0@,
                parameter,
                edit,
                after@,
            )
        } else {
            result is None
        },
        _ => result is None,
    }
}

/// What the user's edit of a parameter gives, if it changes anything. An edit that the
/// parameter's widget cannot make gives nothing.
pub fn parameter_edit(
    sort: ParameterValueType,
    value: Value,
    choices: &Vec<String>,
    parameter: &str,
    edit: ParameterEdit,
) -> (result: Option<Value>)
    ensures
        edit_gives(sort, value, choices@, parameter@, edit, result),
{
    let widget = parameter_widget(sort, &value, "", false);
    proof {
        reveal_strlit("");
        assert(""@ =~= Seq::empty());
    }
    match (widget, edit) {
        (Widget::Slider { .. }, ParameterEdit::Number(number)) => Some(Value::Real(number)),
        (Widget::Counter, ParameterEdit::Counter(number)) => Some(Value::Unsigned(number)),
        (Widget::WholeNumber, ParameterEdit::Whole(number)) => Some(
            if number >= 0 {
                Value::Unsigned(number as u64)
            } else {
                Value::Signed(number)
            },
        ),
        (Widget::Switch(on), ParameterEdit::Switch) => Some(Value::Flag(!on)),
        (Widget::Choices, ParameterEdit::Choose(index)) => match value {
            Value::Text(text) => if index < choices.len() && !same_text(
                choices[index].as_str(),
                text.as_str(),
            ) {
                Some(Value::Text(String::from_str(choices[index].as_str())))
            } else {
                None
            },
            _ => None,
        },
        (Widget::Measure(_), ParameterEdit::Measure { number, moved, unit }) => match value.unit() {
            Some(before) => {
                let units = offered_units(sort);
                let after = match unit {
                    Some(true) => String::from_str(units.1),
                    Some(false) => String::from_str(units.0),
                    None => String::from_str(before.as_str()),
                };
                if moved || !same_text(after.as_str(), before.as_str()) {
                    Some(measure(after, number))
                } else {
                    None
                }
            },
            None => None,
        },
        (Widget::List, ParameterEdit::List(edit)) => {
            let mut list = value;
            let changed = structured_list_widget(&mut list, parameter, edit);
            if changed {
                Some(list)
            } else {
                None
            }
        },
        _ => None,
    }
}

/// An edit never changes what sort of value a parameter holds: what it gives can be edited
/// again.
pub proof fn edits_keep_the_sort(
    sort: ParameterValueType,
    value: Value,
    choices: Seq<String>,
    parameter: Seq<char>,
    edit: ParameterEdit,
    given: Value,
    hint: Seq<char>,
    above: bool,
)
    requires
        edit_gives(sort, value, choices, parameter, edit, Some(given)),
    ensures
        !(widget_of(sort, given, hint, above) is Nothing),
{
    if let (Widget::Measure(_), ParameterEdit::Measure { number, unit, .. }) = (
        widget_of(sort, value, Seq::empty(), false),
        edit,
    ) {
        let after = match unit {
            Some(second) => unit_offered(sort, second),
            None => unit_of(value)->0,
        };
        lemma_measure_has_unit(given, after, number);
    }
}

/// A name without the letters `s` at its end.
pub open spec fn singular(name: Seq<char>) -> Seq<char>
    decreases name.len(),
{
    if name.len() == 0 || name.last() != 's' {
        name
    } else {
        singular(name.drop_last())
    }
}

/// The title of an item of a list.
pub fn item_title(parameter: &str, index: u64) -> (title: String)
    requires
        index < u64::MAX,
    ensures
        title@ == singular(parameter@) + " "@ + decimal((index + 1) as nat),
{
    let letters = letters_of(parameter);
    let mut end: usize = letters.len();
    assert(letters@.take(end as int) =~= letters@);
    while end > 0 && letters[end - 1] == 's'
        invariant
            end <= letters.len(),
            letters@ == parameter@,
            singular(parameter@) == singular(letters@.take(end as int)),
        decreases end,
    {
        assert(letters@.take(end as int).drop_last() =~= letters@.take(end - 1));
        end -= 1;
    }
    let mut title = text_between(&letters, 0, end);
    assert(title@ =~= letters@.take(end as int));
    title.append(" ");
    push_decimal(&mut title, index + 1);
    assert(title@ =~= singular(parameter@) + " "@ + decimal((index + 1) as nat));
    title
}

/// Whether the items of a list are shown open at first: only of a short list.
pub fn opens_items(count: usize) -> (open: bool)
    ensures
        open == (count <= 8),
{
    count <= 8
}

/// A name with spaces in place of underscores.
pub open spec fn spaced(name: Seq<char>) -> Seq<char> {
    name.map_values(
        |letter: char|
            if letter == '_' {
                ' '
            } else {
                letter
            },
    )
}

/// A name with spaces in place of underscores.
pub fn readable(name: &str) -> (text: String)
    ensures
        text@ == spaced(name@),
{
    let letters = letters_of(name);
    let mut text = String::new();
    let mut index: usize = 0;
    while index < letters.len()
        invariant
            index <= letters.len(),
            letters@ == name@,
            text@ == spaced(name@).take(index as int),
        decreases letters.len() - index,
    {
        if letters[index] == '_' {
            text.push(' ');
        } else {
            text.push(letters[index]);
        }
        assert(spaced(name@).take(index + 1) =~= spaced(name@).take(index as int).push(
            spaced(name@)[index as int],
        ));
        index += 1;
    }
    assert(spaced(name@).take(index as int) =~= spaced(name@));
    text
}

/// Whether a parameter can be automated, in a word.
pub fn automation_label(automatable: bool) -> (label: &'static str)
    ensures
        label@ == if automatable {
            "AUTOMATABLE"@
        } else {
            "STATIC"@
        },
{
    if automatable {
        "AUTOMATABLE"
    } else {
        "STATIC"
    }
}

/// How many lanes automate a parameter, if any do.
pub fn lanes_text(lanes: u64) -> (text: Option<String>)
    ensures
        match text {
            Some(text) => lanes > 0 && text@ == decimal(lanes as nat) + " LANE(S)"@,
            None => lanes == 0,
        },
{
    if lanes == 0 {
        return None;
    }
    let mut text = String::new();
    push_decimal(&mut text, lanes);
    text.append(" LANE(S)");
    assert(text@ =~= decimal(lanes as nat) + " LANE(S)"@);
    Some(text)
}

/// The identity of a parameter and how it likes to be shown, where the structure of the
/// project is shown.
pub fn identity_text(id: &str, hint: &str) -> (text: String)
    ensures
        text@ == id@ + " · "@ + hint@,
{
    let text = joined(joined(id, " · ").as_str(), hint);
    assert(text@ =~= id@ + " · "@ + hint@);
    text
}

/// A list never grows past its limit.
pub proof fn lists_stay_in_bounds(
    items: Seq<Value>,
    parameter: Seq<char>,
    edit: ListEdit,
    after: Seq<Value>,
)
    requires
        list_becomes(items, parameter, edit, after),
        items.len() <= list_limit(parameter),
    ensures
        after.len() <= list_limit(parameter),
{
}

/// A field of a record is found by its name: the first that has it, if any has.
pub proof fn fields_are_found_by_their_name(fields: Seq<(String, Value)>, name: Seq<char>)
    ensures
        0 <= field_place(fields, name) <= fields.len(),
        field_place(fields, name) < fields.len() ==> fields[field_place(fields, name)].0@ == name,
        forall|i: int| 0 <= i < field_place(fields, name) ==> (#[trigger] fields[i]).0@ != name,
    decreases fields.len(),
{
    if fields.len() > 0 && fields[0].0@ != name {
        let rest = fields.skip(1);
        fields_are_found_by_their_name(rest, name);
        assert forall|i: int| 0 <= i < field_place(fields, name) implies (
        #[trigger] fields[i]).0@ != name by {
            if i > 0 {
                assert(rest[i - 1] == fields[i]);
            }
        }
    }
}

/// A parameter is edited by what suits it: a number by a slider, a whole number by a counter
/// unless it is below zero, a flag by a switch that shows it, a text by its choices, a list by a
/// list. A value of another sort is not edited.
pub proof fn widgets_suit_their_value(
    number: u64,
    whole: i64,
    on: bool,
    text: String,
    items: Vec<Value>,
    hint: Seq<char>,
    above: bool,
)
    ensures
        widget_of(ParameterValueType::Number, Value::Real(number), hint, above) == (
        Widget::Slider { logarithmic: hint == "logarithmic"@ && above }),
        widget_of(ParameterValueType::Number, Value::Unsigned(number), hint, above) is Slider,
        widget_of(ParameterValueType::Number, Value::Text(text), hint, above) is Nothing,
        widget_of(ParameterValueType::Integer, Value::Unsigned(number), hint, above) is Counter,
        whole < 0 ==> widget_of(ParameterValueType::Integer, Value::Signed(whole), hint, above)
            is WholeNumber,
        whole >= 0 ==> widget_of(ParameterValueType::Integer, Value::Signed(whole), hint, above)
            is Counter,
        widget_of(ParameterValueType::Integer, Value::Real(number), hint, above) is Nothing,
        widget_of(ParameterValueType::Boolean, Value::Flag(on), hint, above) == Widget::Switch(on),
        widget_of(ParameterValueType::Boolean, Value::Real(number), hint, above) is Nothing,
        widget_of(ParameterValueType::Choice, Value::Text(text), hint, above) is Choices,
        widget_of(ParameterValueType::Choice, Value::Flag(on), hint, above) is Nothing,
        widget_of(ParameterValueType::List, Value::List(items), hint, above) is List,
        widget_of(ParameterValueType::List, Value::Flag(on), hint, above) is Nothing,
        widget_of(ParameterValueType::Time, Value::Real(number), hint, above) is Nothing,
        widget_of(ParameterValueType::Rate, Value::Real(number), hint, above) is Nothing,
{
}

/// A number with a unit keeps its unit and takes its number: a rate in hertz is edited in its own
/// range, any other in beats.
pub proof fn measures_are_edited_in_their_unit(
    value: Value,
    unit: Seq<char>,
    number: u64,
    hint: Seq<char>,
    above: bool,
)
    requires
        is_measure(value, unit, number),
    ensures
        unit_of(value) == Some(unit),
        widget_of(ParameterValueType::Time, value, hint, above) == Widget::Measure(
            MeasureRange::Own,
        ),
        unit == "hertz"@ ==> widget_of(ParameterValueType::Rate, value, hint, above)
            == Widget::Measure(MeasureRange::Hertz),
        unit != "hertz"@ ==> widget_of(ParameterValueType::Rate, value, hint, above)
            == Widget::Measure(MeasureRange::Beats),
{
    lemma_measure_has_unit(value, unit, number);
}

/// The whole part of a number drops its thousandths, towards zero.
pub proof fn whole_parts_drop_the_thousandths(number: int)
    ensures
        number >= 0 ==> 1_000 * whole_part(number) <= number < 1_000 * (whole_part(number) + 1),
        number < 0 ==> 1_000 * (whole_part(number) - 1) < number <= 1_000 * whole_part(number),
        whole_part(-number) == -whole_part(number),
{
}

/// What an edit gives: the slider the number it was moved to, the counter the count, the switch
/// the other position, a choice its text; a unit that is chosen keeps the number.
pub proof fn edits_give_what_was_put_in(
    choices: Seq<String>,
    parameter: Seq<char>,
    number: u64,
    other: u64,
    below: i64,
    whole: i64,
    on: bool,
    text: String,
    index: usize,
    result: Option<Value>,
)
    requires
        below < 0,
    ensures
        edit_gives(
            ParameterValueType::Number,
            Value::Real(other),
            choices,
            parameter,
            ParameterEdit::Number(number),
            result,
        ) ==> result == Some(Value::Real(number)),
        edit_gives(
            ParameterValueType::Integer,
            Value::Unsigned(other),
            choices,
            parameter,
            ParameterEdit::Counter(number),
            result,
        ) ==> result == Some(Value::Unsigned(number)),
        edit_gives(
            ParameterValueType::Integer,
            Value::Signed(below),
            choices,
            parameter,
            ParameterEdit::Whole(whole),
            result,
        ) ==> result == Some(
            if whole < 0 {
                Value::Signed(whole)
            } else {
                Value::Unsigned(whole as u64)
            },
        ),
        edit_gives(
            ParameterValueType::Boolean,
            Value::Flag(on),
            choices,
            parameter,
            ParameterEdit::Switch,
            result,
        ) ==> result == Some(Value::Flag(!on)),
        edit_gives(
            ParameterValueType::Choice,
            Value::Text(text),
            choices,
            parameter,
            ParameterEdit::Choose(index),
            result,
        ) ==> {
            &&& index < choices.len() && choices[index as int]@ != text@ ==> (result matches Some(
                Value::Text(chosen),
            ) && chosen@ == choices[index as int]@)
            &&& index >= choices.len() || choices[index as int]@ == text@ ==> result is None
        },
        edit_gives(
            ParameterValueType::Boolean,
            Value::Flag(on),
            choices,
            parameter,
            ParameterEdit::Number(number),
            result,
        ) ==> result is None,
{
}

/// A time is offered in beats and seconds, a rate in hertz and beats; choosing another unit, or
/// moving the number, gives the number in that unit, and nothing else does.
pub proof fn measures_are_given_in_the_chosen_unit(
    sort: ParameterValueType,
    value: Value,
    unit: Seq<char>,
    old_number: u64,
    choices: Seq<String>,
    parameter: Seq<char>,
    number: u64,
    result: Option<Value>,
)
    requires
        sort is Time || sort is Rate,
        is_measure(value, unit, old_number),
    ensures
        unit_offered(ParameterValueType::Time, false) == "beats"@,
        unit_offered(ParameterValueType::Time, true) == "seconds"@,
        unit_offered(ParameterValueType::Rate, false) == "hertz"@,
        unit_offered(ParameterValueType::Rate, true) == "beats"@,
        edit_gives(
            sort,
            value,
            choices,
            parameter,
            ParameterEdit::Measure { number, moved: true, unit: None },
            result,
        ) ==> (result matches Some(given) && is_measure(given, unit, number)),
        edit_gives(
            sort,
            value,
            choices,
            parameter,
            ParameterEdit::Measure { number, moved: false, unit: None },
            result,
        ) ==> result is None,
        edit_gives(
            sort,
            value,
            choices,
            parameter,
            ParameterEdit::Measure { number, moved: false, unit: Some(true) },
            result,
        ) && unit_offered(sort, true) != unit ==> (result matches Some(given) && is_measure(
            given,
            unit_offered(sort, true),
            number,
        )),
{
    lemma_measure_has_unit(value, unit, old_number);
}

/// A list takes up to eight bands, or 64 of anything else, one new item at a time at its end; an
/// item that is removed leaves the others in their order; an edit changes one item only.
pub proof fn lists_change_one_item(
    items: Seq<Value>,
    parameter: Seq<char>,
    index: usize,
    field: usize,
    edit: FieldEdit,
    after: Seq<Value>,
)
    requires
        index < items.len(),
    ensures
        list_limit("bands"@) == 8,
        parameter != "bands"@ ==> list_limit(parameter) == 64,
        list_becomes(items, parameter, ListEdit::Remove(index), after) ==> after.len()
            == items.len() - 1 && (forall|i: int|
            0 <= i < index ==> #[trigger] after[i] == items[i]) && (forall|i: int|
            index <= i < after.len() ==> #[trigger] after[i] == items[i + 1]),
        list_becomes(items, parameter, ListEdit::Append, after) && items.len() < 8 ==> after.len()
            == items.len() + 1 && after.drop_last() == items && is_new_item(
            after.last(),
            parameter,
        ),
        list_becomes(items, parameter, ListEdit::Append, after) && items.len() >= 64 ==> after
            == items,
        list_becomes(items, parameter, ListEdit::Field { index, field, edit }, after) ==> after.len()
            == items.len() && forall|i: int|
            0 <= i < items.len() && i != index ==> #[trigger] after[i] == items[i],
{
}

/// A field becomes what was put in: a flag the other position, a number this number, a text the
/// one that was chosen or typed; what does not suit it changes nothing.
pub proof fn fields_become_what_was_put_in(
    key: Seq<char>,
    on: bool,
    number: u64,
    other: u64,
    text: String,
    typed: String,
    after: Value,
)
    requires
        key != "shape"@,
        key != "slope_db_per_octave"@,
    ensures
        field_becomes(key, Value::Flag(on), FieldEdit::Switch, after) ==> after == Value::Flag(!on),
        field_becomes(key, Value::Real(other), FieldEdit::Number(number), after) ==> after
            == Value::Real(number),
        field_becomes(key, Value::Text(text), FieldEdit::Type(typed), after) ==> (after matches Value::Text(
            shown,
        ) && shown@ == typed@),
        field_becomes(key, Value::Flag(on), FieldEdit::Number(number), after) ==> after
            == Value::Flag(on),
        field_becomes(key, Value::Real(other), FieldEdit::Switch, after) ==> after == Value::Real(
            other,
        ),
        field_widget_of(key, Value::Flag(on)) == FieldWidget::Switch(on),
        field_widget_of(key, Value::Text(text)) is Typed,
        field_widget_of("shape"@, Value::Text(text)) is Choices,
        field_widget_of(key, Value::Missing) is Nothing,
{
}

/// The fields of a band have the ranges that a band has.
pub proof fn fields_have_the_ranges_of_a_band()
    ensures
        number_range("frequency_hz"@) == (10_000int, 24_000_000int),
        number_range("gain_db"@) == (-24_000int, 24_000int),
        number_range("q"@) == (100int, 30_000int),
        number_range("level"@) == (0int, 1_000int),
        text_choices("shape"@).len() == 7,
        text_choices("slope_db_per_octave"@).len() == 4,
{
    reveal_strlit("frequency_hz");
    reveal_strlit("gain_db");
    reveal_strlit("q");
    reveal_strlit("level");
    reveal_strlit("shape");
    reveal_strlit("slope_db_per_octave");
    assert("frequency_hz"@.len() == 12);
    assert("gain_db"@.len() == 7);
    assert("q"@.len() == 1);
    assert("level"@.len() == 5);
    assert("shape"@.len() == 5);
    assert("slope_db_per_octave"@.len() == 19);
}

/// The name of one item is that of its list without the letters `s` at its end, and a name is
/// readable with spaces in place of its underscores.
pub proof fn names_are_made_readable(name: Seq<char>, place: int)
    ensures
        name.len() > 0 && name.last() != 's' ==> singular(name) == name && singular(name.push('s'))
            == name,
        spaced(name).len() == name.len(),
        0 <= place < name.len() && name[place] == '_' ==> spaced(name)[place] == ' ',
        0 <= place < name.len() && name[place] != '_' ==> spaced(name)[place] == name[place],
{
    assert(name.push('s').drop_last() =~= name);
}

} // verus!
